//! A JSON reader for the documents the orchestrator has to look inside:
//! the settings file and user-supplied engine configs. The grammar is the
//! standard one; string contents are kept exactly as written (escape
//! sequences are validated but not decoded), and numbers are kept as their
//! lexeme, so a document is never altered by reading it.

use vstd::prelude::*;

verus! {

/// A parsed JSON value. Strings hold their raw contents (between the
/// quotes, escapes as written); numbers hold their lexeme.
pub enum Json {
    Null,
    Bool(bool),
    Num(Vec<u8>),
    Str(Vec<u8>),
    Arr(Vec<Json>),
    Obj(Vec<(Vec<u8>, Json)>),
}

/// The mathematical shape of a JSON value.
pub enum JsonV {
    Null,
    Bool(bool),
    Num(Seq<u8>),
    Str(Seq<u8>),
    Arr(Seq<JsonV>),
    Obj(Seq<(Seq<u8>, JsonV)>),
}

impl Json {
    /// The abstract value of this node.
    pub open spec fn view(self) -> JsonV
        decreases self,
    {
        match self {
            Json::Null => JsonV::Null,
            Json::Bool(b) => JsonV::Bool(b),
            Json::Num(n) => JsonV::Num(n@),
            Json::Str(s) => JsonV::Str(s@),
            Json::Arr(items) => JsonV::Arr(spec_view_items(items@)),
            Json::Obj(members) => JsonV::Obj(spec_view_members(members@)),
        }
    }
}

/// The abstract values of a sequence of array items.
pub open spec fn spec_view_items(items: Seq<Json>) -> Seq<JsonV>
    decreases items,
{
    if items.len() == 0 {
        Seq::empty()
    } else {
        spec_view_items(items.drop_last()).push(items.last().view())
    }
}

/// The abstract values of a sequence of object members.
pub open spec fn spec_view_members(members: Seq<(Vec<u8>, Json)>) -> Seq<(Seq<u8>, JsonV)>
    decreases members,
{
    if members.len() == 0 {
        Seq::empty()
    } else {
        spec_view_members(members.drop_last()).push(
            (members.last().0@, members.last().1.view()),
        )
    }
}

pub proof fn lemma_view_items_len(items: Seq<Json>)
    ensures
        spec_view_items(items).len() == items.len(),
        forall|i: int|
            0 <= i < items.len() ==> #[trigger] spec_view_items(items)[i] == items[i].view(),
    decreases items,
{
    if items.len() > 0 {
        lemma_view_items_len(items.drop_last());
    }
}

pub proof fn lemma_view_members_len(members: Seq<(Vec<u8>, Json)>)
    ensures
        spec_view_members(members).len() == members.len(),
        forall|i: int|
            0 <= i < members.len() ==> #[trigger] spec_view_members(members)[i] == (
                members[i].0@,
                members[i].1.view(),
            ),
    decreases members,
{
    if members.len() > 0 {
        lemma_view_members_len(members.drop_last());
    }
}

/// First member of `ms` whose key is `key`, if any.
pub open spec fn spec_lookup(ms: Seq<(Seq<u8>, JsonV)>, key: Seq<u8>) -> Option<JsonV>
    decreases ms.len(),
{
    if ms.len() == 0 {
        None
    } else if ms[0].0 == key {
        Some(ms[0].1)
    } else {
        spec_lookup(ms.drop_first(), key)
    }
}

impl JsonV {
    /// The member named `key` of an object, if any.
    pub open spec fn spec_get(self, key: Seq<u8>) -> Option<JsonV> {
        match self {
            JsonV::Obj(ms) => spec_lookup(ms, key),
            _ => None,
        }
    }

    /// The `i`-th item of an array, if any.
    pub open spec fn spec_at(self, i: int) -> Option<JsonV> {
        match self {
            JsonV::Arr(items) => if 0 <= i < items.len() {
                Some(items[i])
            } else {
                None
            },
            _ => None,
        }
    }

    /// The raw contents of a string value, if this is one.
    pub open spec fn spec_as_str(self) -> Option<Seq<u8>> {
        match self {
            JsonV::Str(c) => Some(c),
            _ => None,
        }
    }

    /// The value of a number, if its lexeme is a plain run of digits whose
    /// value fits in a `u64`.
    pub open spec fn spec_as_u64(self) -> Option<u64> {
        match self {
            JsonV::Num(lex) => if lex.len() > 0 && crate::textutil::spec_all_digits(lex)
                && crate::textutil::spec_dec_val(lex) <= u64::MAX {
                Some(crate::textutil::spec_dec_val(lex) as u64)
            } else {
                None
            },
            _ => None,
        }
    }

    /// The value of a boolean, if this is one.
    pub open spec fn spec_as_bool(self) -> Option<bool> {
        match self {
            JsonV::Bool(b) => Some(b),
            _ => None,
        }
    }
}

impl Json {
    /// The member named `key` of an object, if any.
    pub fn get<'a>(&'a self, key: &[u8]) -> (r: Option<&'a Json>)
        ensures
            match self.view().spec_get(key@) {
                Some(v) => r matches Some(p) && p.view() == v,
                None => r is None,
            },
    {
        match self {
            Json::Obj(members) => {
                proof {
                    lemma_view_members_len(members@);
                }
                let ghost msv = spec_view_members(members@);
                proof {
                    assert(msv.subrange(0, msv.len() as int) =~= msv);
                }
                let mut i: usize = 0;
                while i < members.len()
                    invariant
                        i <= members@.len(),
                        msv == spec_view_members(members@),
                        self.view() == JsonV::Obj(msv),
                        msv.len() == members@.len(),
                        forall|k: int|
                            0 <= k < members@.len() ==> #[trigger] msv[k] == (
                                members@[k].0@,
                                members@[k].1.view(),
                            ),
                        spec_lookup(msv, key@) == spec_lookup(
                            msv.subrange(i as int, msv.len() as int),
                            key@,
                        ),
                    decreases members@.len() - i,
                {
                    let pair = &members[i];
                    if crate::textutil::bytes_eq(pair.0.as_slice(), key) {
                        proof {
                            let tail = msv.subrange(i as int, msv.len() as int);
                            assert(tail[0] == msv[i as int]);
                            let ii = i as int;
                            assert(msv[ii] == (members@[ii].0@, members@[ii].1.view()));
                            assert(*pair == members@[ii]);
                            assert(spec_lookup(tail, key@) == Some(msv[i as int].1));
                            assert(self.view() == JsonV::Obj(msv));
                        }
                        return Some(&pair.1);
                    }
                    proof {
                        let tail = msv.subrange(i as int, msv.len() as int);
                        assert(tail[0] == msv[i as int]);
                        assert(tail.drop_first() =~= msv.subrange(i + 1, msv.len() as int));
                    }
                    i = i + 1;
                }
                proof {
                    assert(msv.subrange(i as int, msv.len() as int) =~= Seq::<
                        (Seq<u8>, JsonV),
                    >::empty());
                }
                None
            },
            _ => None,
        }
    }

    /// The `i`-th item of an array, if any.
    pub fn at<'a>(&'a self, i: usize) -> (r: Option<&'a Json>)
        ensures
            match self.view().spec_at(i as int) {
                Some(v) => r matches Some(p) && p.view() == v,
                None => r is None,
            },
    {
        match self {
            Json::Arr(items) => {
                proof {
                    lemma_view_items_len(items@);
                }
                if i < items.len() {
                    Some(&items[i])
                } else {
                    None
                }
            },
            _ => None,
        }
    }

    /// The raw contents of a string value, if this is one.
    pub fn as_str<'a>(&'a self) -> (r: Option<&'a Vec<u8>>)
        ensures
            match self.view().spec_as_str() {
                Some(c) => r matches Some(p) && p@ == c,
                None => r is None,
            },
    {
        match self {
            Json::Str(c) => Some(c),
            _ => None,
        }
    }

    /// The value of a number whose lexeme is a plain run of digits that
    /// fits in a `u64`.
    pub fn as_u64(&self) -> (r: Option<u64>)
        ensures
            r == self.view().spec_as_u64(),
    {
        match self {
            Json::Num(lex) => crate::textutil::parse_u64_dec(lex.as_slice()),
            _ => None,
        }
    }

    /// The value of a boolean, if this is one.
    pub fn as_bool(&self) -> (r: Option<bool>)
        ensures
            r == self.view().spec_as_bool(),
    {
        match self {
            Json::Bool(b) => Some(*b),
            _ => None,
        }
    }

    /// The number of items, if this is an array.
    pub fn arr_len(&self) -> (r: Option<usize>)
        ensures
            match self.view() {
                JsonV::Arr(items) => r matches Some(n) && n == items.len(),
                _ => r is None,
            },
    {
        match self {
            Json::Arr(items) => {
                proof {
                    lemma_view_items_len(items@);
                }
                Some(items.len())
            },
            _ => None,
        }
    }
}

/// JSON insignificant whitespace.
pub open spec fn spec_is_ws(c: u8) -> bool {
    c == 32 || c == 9 || c == 10 || c == 13
}

/// ASCII decimal digit.
pub open spec fn spec_is_digit(c: u8) -> bool {
    48 <= c <= 57
}

/// ASCII hexadecimal digit.
pub open spec fn spec_is_hex(c: u8) -> bool {
    spec_is_digit(c) || (65 <= c <= 70) || (97 <= c <= 102)
}

/// The first position at or after `i` holding a non-whitespace byte, or the
/// end of the input.
pub open spec fn spec_skip_ws(s: Seq<u8>, i: int) -> int
    decreases s.len() - i when 0 <= i <= s.len()
{
    if i < s.len() && spec_is_ws(s[i]) {
        spec_skip_ws(s, i + 1)
    } else {
        i
    }
}

/// The first position at or after `i` holding a non-digit byte.
pub open spec fn spec_skip_digits(s: Seq<u8>, i: int) -> int
    decreases s.len() - i when 0 <= i <= s.len()
{
    if i < s.len() && spec_is_digit(s[i]) {
        spec_skip_digits(s, i + 1)
    } else {
        i
    }
}

/// Reads the rest of a string literal starting inside the quotes at `i`;
/// yields the raw contents and the position just past the closing quote.
pub open spec fn spec_parse_str_rest(s: Seq<u8>, i: int) -> Option<(Seq<u8>, int)>
    decreases s.len() - i when 0 <= i <= s.len()
{
    if i >= s.len() {
        None
    } else if s[i] == 34 {
        Some((Seq::empty(), i + 1))
    } else if s[i] == 92 {
        if i + 2 <= s.len() && is_simple_escape(s[i + 1]) {
            match spec_parse_str_rest(s, i + 2) {
                Some((rest, e)) => Some((seq![s[i], s[i + 1]] + rest, e)),
                None => None,
            }
        } else if i + 6 <= s.len() && s[i + 1] == 117 && spec_is_hex(s[i + 2]) && spec_is_hex(
            s[i + 3],
        ) && spec_is_hex(s[i + 4]) && spec_is_hex(s[i + 5]) {
            match spec_parse_str_rest(s, i + 6) {
                Some((rest, e)) => Some((s.subrange(i, i + 6) + rest, e)),
                None => None,
            }
        } else {
            None
        }
    } else if s[i] < 32 {
        None
    } else {
        match spec_parse_str_rest(s, i + 1) {
            Some((rest, e)) => Some((seq![s[i]] + rest, e)),
            None => None,
        }
    }
}

/// The single characters that may follow a backslash.
pub open spec fn is_simple_escape(c: u8) -> bool {
    c == 34 || c == 92 || c == 47 || c == 98 || c == 102 || c == 110 || c == 114 || c == 116
}

/// Reads a number lexeme starting at `i`; yields the position just past it.
pub open spec fn spec_parse_num_end(s: Seq<u8>, i: int) -> Option<int> {
    if 0 <= i < s.len() {
        let j = if s[i] == 45 {
            i + 1
        } else {
            i
        };
        if j < s.len() && spec_is_digit(s[j]) {
            let k = if s[j] == 48 {
                j + 1
            } else {
                spec_skip_digits(s, j)
            };
            let k2 = spec_num_frac(s, k);
            match k2 {
                Some(k2) => spec_num_exp(s, k2),
                None => None,
            }
        } else {
            None
        }
    } else {
        None
    }
}

/// The position past an optional fraction part beginning at `k`.
pub open spec fn spec_num_frac(s: Seq<u8>, k: int) -> Option<int> {
    if 0 <= k <= s.len() {
        if k < s.len() && s[k] == 46 {
            if k + 1 < s.len() && spec_is_digit(s[k + 1]) {
                Some(spec_skip_digits(s, k + 1))
            } else {
                None
            }
        } else {
            Some(k)
        }
    } else {
        None
    }
}

/// The bytes of the literal `null`.
pub open spec fn spec_lit_null() -> Seq<u8> {
    seq![110u8, 117u8, 108u8, 108u8]
}

/// The bytes of the literal `true`.
pub open spec fn spec_lit_true() -> Seq<u8> {
    seq![116u8, 114u8, 117u8, 101u8]
}

/// The bytes of the literal `false`.
pub open spec fn spec_lit_false() -> Seq<u8> {
    seq![102u8, 97u8, 108u8, 115u8, 101u8]
}

/// Reads one JSON value starting at the non-whitespace position `i`; yields
/// the value and the position just past it.
pub open spec fn spec_parse_value(s: Seq<u8>, i: int) -> Option<(JsonV, int)>
    decreases s.len() - i, 1int
        when 0 <= i <= s.len()
{
    if i >= s.len() {
        None
    } else if s[i] == 110 {
        if i + 4 <= s.len() && s.subrange(i, i + 4) == spec_lit_null() {
            Some((JsonV::Null, i + 4))
        } else {
            None
        }
    } else if s[i] == 116 {
        if i + 4 <= s.len() && s.subrange(i, i + 4) == spec_lit_true() {
            Some((JsonV::Bool(true), i + 4))
        } else {
            None
        }
    } else if s[i] == 102 {
        if i + 5 <= s.len() && s.subrange(i, i + 5) == spec_lit_false() {
            Some((JsonV::Bool(false), i + 5))
        } else {
            None
        }
    } else if s[i] == 34 {
        match spec_parse_str_rest(s, i + 1) {
            Some((c, e)) => Some((JsonV::Str(c), e)),
            None => None,
        }
    } else if s[i] == 91 {
        let j = spec_skip_ws(s, i + 1);
        if !(i < j && j <= s.len()) {
            None
        } else if j < s.len() && s[j] == 93 {
            Some((JsonV::Arr(Seq::empty()), j + 1))
        } else {
            match spec_parse_items(s, j) {
                Some((vs, e)) => Some((JsonV::Arr(vs), e)),
                None => None,
            }
        }
    } else if s[i] == 123 {
        let j = spec_skip_ws(s, i + 1);
        if !(i < j && j <= s.len()) {
            None
        } else if j < s.len() && s[j] == 125 {
            Some((JsonV::Obj(Seq::empty()), j + 1))
        } else {
            match spec_parse_members(s, j) {
                Some((ms, e)) => Some((JsonV::Obj(ms), e)),
                None => None,
            }
        }
    } else if s[i] == 45 || spec_is_digit(s[i]) {
        match spec_parse_num_end(s, i) {
            Some(e) => if i < e <= s.len() {
                Some((JsonV::Num(s.subrange(i, e)), e))
            } else {
                None
            },
            None => None,
        }
    } else {
        None
    }
}

/// Reads the items of an array from the non-whitespace position `j` of the
/// first item on; yields the items and the position just past `]`.
pub open spec fn spec_parse_items(s: Seq<u8>, j: int) -> Option<(Seq<JsonV>, int)>
    decreases s.len() - j, 2int
        when 0 <= j <= s.len()
{
    match spec_parse_value(s, j) {
        Some((v, k)) => {
            if !(j < k && k <= s.len()) {
                None
            } else {
                let m = spec_skip_ws(s, k);
                if !(k <= m && m <= s.len()) {
                    None
                } else if m < s.len() && s[m] == 44 {
                    let m2 = spec_skip_ws(s, m + 1);
                    if !(j < m2 && m2 <= s.len()) {
                        None
                    } else {
                        match spec_parse_items(s, m2) {
                            Some((rest, e)) => Some((seq![v] + rest, e)),
                            None => None,
                        }
                    }
                } else if m < s.len() && s[m] == 93 {
                    Some((seq![v], m + 1))
                } else {
                    None
                }
            }
        },
        None => None,
    }
}

/// Reads the members of an object from the non-whitespace position `j` of
/// the first key on; yields the members and the position just past `}`.
pub open spec fn spec_parse_members(s: Seq<u8>, j: int) -> Option<(Seq<(Seq<u8>, JsonV)>, int)>
    decreases s.len() - j, 2int
        when 0 <= j <= s.len()
{
    if j < s.len() && s[j] == 34 {
        match spec_parse_str_rest(s, j + 1) {
            Some((key, k)) => {
                if !(j < k && k <= s.len()) {
                    None
                } else {
                    let m = spec_skip_ws(s, k);
                    if !(k <= m && m <= s.len()) {
                        None
                    } else if m < s.len() && s[m] == 58 {
                        let vp = spec_skip_ws(s, m + 1);
                        if !(j < vp && vp <= s.len()) {
                            None
                        } else {
                            match spec_parse_value(s, vp) {
                                Some((v, k2)) => {
                                    if !(vp <= k2 && k2 <= s.len()) {
                                        None
                                    } else {
                                        let m3 = spec_skip_ws(s, k2);
                                        if !(k2 <= m3 && m3 <= s.len()) {
                                            None
                                        } else if m3 < s.len() && s[m3] == 44 {
                                            let m4 = spec_skip_ws(s, m3 + 1);
                                            if !(j < m4 && m4 <= s.len()) {
                                                None
                                            } else {
                                                match spec_parse_members(s, m4) {
                                                    Some((rest, e)) => Some(
                                                        (seq![(key, v)] + rest, e),
                                                    ),
                                                    None => None,
                                                }
                                            }
                                        } else if m3 < s.len() && s[m3] == 125 {
                                            Some((seq![(key, v)], m3 + 1))
                                        } else {
                                            None
                                        }
                                    }
                                },
                                None => None,
                            }
                        }
                    } else {
                        None
                    }
                }
            },
            None => None,
        }
    } else {
        None
    }
}

/// Reads a whole document: one value surrounded by whitespace only.
pub open spec fn spec_parse_json(s: Seq<u8>) -> Option<JsonV> {
    let i = spec_skip_ws(s, 0);
    if 0 <= i <= s.len() {
        match spec_parse_value(s, i) {
            Some((v, e)) => if 0 <= e <= s.len() && spec_skip_ws(s, e) == s.len() {
                Some(v)
            } else {
                None
            },
            None => None,
        }
    } else {
        None
    }
}

/// The position past an optional exponent part beginning at `k`.
pub open spec fn spec_num_exp(s: Seq<u8>, k: int) -> Option<int> {
    if 0 <= k <= s.len() {
        if k < s.len() && (s[k] == 101 || s[k] == 69) {
            let j = if k + 1 < s.len() && (s[k + 1] == 43 || s[k + 1] == 45) {
                k + 2
            } else {
                k + 1
            };
            if j < s.len() && spec_is_digit(s[j]) {
                Some(spec_skip_digits(s, j))
            } else {
                None
            }
        } else {
            Some(k)
        }
    } else {
        None
    }
}

pub proof fn lemma_view_items_append(a: Seq<Json>, b: Seq<Json>)
    ensures
        spec_view_items(a + b) == spec_view_items(a) + spec_view_items(b),
    decreases b.len(),
{
    if b.len() == 0 {
        assert(a + b == a);
        assert(spec_view_items(a) + spec_view_items(b) =~= spec_view_items(a));
    } else {
        lemma_view_items_append(a, b.drop_last());
        assert((a + b).drop_last() == a + b.drop_last());
        assert((a + b).last() == b.last());
        assert(spec_view_items(a + b) =~= spec_view_items(a) + spec_view_items(b));
    }
}

pub proof fn lemma_view_members_append(a: Seq<(Vec<u8>, Json)>, b: Seq<(Vec<u8>, Json)>)
    ensures
        spec_view_members(a + b) == spec_view_members(a) + spec_view_members(b),
    decreases b.len(),
{
    if b.len() == 0 {
        assert(a + b == a);
        assert(spec_view_members(a) + spec_view_members(b) =~= spec_view_members(a));
    } else {
        lemma_view_members_append(a, b.drop_last());
        assert((a + b).drop_last() == a + b.drop_last());
        assert((a + b).last() == b.last());
        assert(spec_view_members(a + b) =~= spec_view_members(a) + spec_view_members(b));
    }
}

pub proof fn lemma_view_items_singleton(x: Json)
    ensures
        spec_view_items(seq![x]) == seq![x.view()],
{
    assert(seq![x].drop_last() =~= Seq::<Json>::empty());
    assert(seq![x].last() == x);
    assert(spec_view_items(Seq::<Json>::empty()) =~= Seq::<JsonV>::empty());
    assert(spec_view_items(seq![x]) =~= seq![x.view()]);
}

pub proof fn lemma_view_members_singleton(x: (Vec<u8>, Json))
    ensures
        spec_view_members(seq![x]) == seq![(x.0@, x.1.view())],
{
    assert(seq![x].drop_last() =~= Seq::<(Vec<u8>, Json)>::empty());
    assert(seq![x].last() == x);
    assert(spec_view_members(Seq::<(Vec<u8>, Json)>::empty()) =~= Seq::<(Seq<u8>, JsonV)>::empty());
    assert(spec_view_members(seq![x]) =~= seq![(x.0@, x.1.view())]);
}

/// The contents of a well-formed string literal are exactly the input bytes
/// up to the closing quote.
pub proof fn lemma_str_rest_subrange(s: Seq<u8>, i: int)
    requires
        0 <= i <= s.len(),
        spec_parse_str_rest(s, i) is Some,
    ensures
        ({
            let (c, e) = spec_parse_str_rest(s, i).unwrap();
            i < e <= s.len() && c == s.subrange(i, e - 1)
        }),
    decreases s.len() - i,
{
    let (c, e) = spec_parse_str_rest(s, i).unwrap();
    if s[i] == 34 {
        assert(c =~= s.subrange(i, e - 1));
    } else if s[i] == 92 {
        if i + 2 <= s.len() && is_simple_escape(s[i + 1]) {
            lemma_str_rest_subrange(s, i + 2);
            assert(c =~= s.subrange(i, e - 1));
        } else {
            lemma_str_rest_subrange(s, i + 6);
            assert(c =~= s.subrange(i, e - 1));
        }
    } else {
        lemma_str_rest_subrange(s, i + 1);
        assert(c =~= s.subrange(i, e - 1));
    }
}

/// First non-whitespace position at or after `i`.
pub fn skip_ws(s: &[u8], i: usize) -> (r: usize)
    requires
        i <= s@.len(),
    ensures
        i <= r <= s@.len(),
        r == spec_skip_ws(s@, i as int),
{
    let mut j = i;
    loop
        invariant
            i <= j <= s@.len(),
            spec_skip_ws(s@, i as int) == spec_skip_ws(s@, j as int),
        decreases s@.len() - j,
    {
        if j == s.len() {
            return j;
        }
        let c = s[j];
        if c == 32 || c == 9 || c == 10 || c == 13 {
            j = j + 1;
        } else {
            return j;
        }
    }
}

/// First non-digit position at or after `i`.
pub fn skip_digits(s: &[u8], i: usize) -> (r: usize)
    requires
        i <= s@.len(),
    ensures
        i <= r <= s@.len(),
        r == spec_skip_digits(s@, i as int),
{
    let mut j = i;
    loop
        invariant
            i <= j <= s@.len(),
            spec_skip_digits(s@, i as int) == spec_skip_digits(s@, j as int),
        decreases s@.len() - j,
    {
        if j == s.len() {
            return j;
        }
        let c = s[j];
        if 48 <= c && c <= 57 {
            j = j + 1;
        } else {
            return j;
        }
    }
}

fn is_hex_byte(c: u8) -> (r: bool)
    ensures
        r == spec_is_hex(c),
{
    (48 <= c && c <= 57) || (65 <= c && c <= 70) || (97 <= c && c <= 102)
}

/// Reads a number lexeme beginning at `i`.
fn parse_num_end(s: &[u8], i: usize) -> (r: Option<usize>)
    requires
        i <= s@.len(),
    ensures
        match r {
            Some(x) => spec_parse_num_end(s@, i as int) == Some(x as int) && i <= x <= s@.len(),
            None => spec_parse_num_end(s@, i as int) is None,
        },
{
    if i >= s.len() {
        return None;
    }
    let j = if s[i] == 45 {
        i + 1
    } else {
        i
    };
    if j >= s.len() {
        return None;
    }
    let c = s[j];
    if !(48 <= c && c <= 57) {
        return None;
    }
    let k = if c == 48 {
        j + 1
    } else {
        skip_digits(s, j)
    };
    let k2 = if k < s.len() && s[k] == 46 {
        if k + 1 < s.len() && 48 <= s[k + 1] && s[k + 1] <= 57 {
            skip_digits(s, k + 1)
        } else {
            return None;
        }
    } else {
        k
    };
    let k3 = if k2 < s.len() && (s[k2] == 101 || s[k2] == 69) {
        let j2 = if k2 + 1 < s.len() && (s[k2 + 1] == 43 || s[k2 + 1] == 45) {
            k2 + 2
        } else {
            k2 + 1
        };
        if j2 < s.len() && 48 <= s[j2] && s[j2] <= 57 {
            skip_digits(s, j2)
        } else {
            return None;
        }
    } else {
        k2
    };
    Some(k3)
}

/// Reads the rest of a string literal from inside the quotes at `i`.
fn parse_str_rest(s: &[u8], i: usize) -> (r: Option<(Vec<u8>, usize)>)
    requires
        i <= s@.len(),
    ensures
        match spec_parse_str_rest(s@, i as int) {
            Some(p) => r matches Some(q) && q.0@ == p.0 && q.1 == p.1 && i < q.1 <= s@.len(),
            None => r is None,
        },
{
    let mut j = i;
    loop
        invariant
            i <= j <= s@.len(),
            spec_parse_str_rest(s@, i as int) is Some <==> spec_parse_str_rest(
                s@,
                j as int,
            ) is Some,
            spec_parse_str_rest(s@, i as int) is Some ==> spec_parse_str_rest(
                s@,
                i as int,
            ).unwrap().1 == spec_parse_str_rest(s@, j as int).unwrap().1,
        decreases s@.len() - j,
    {
        if j == s.len() {
            return None;
        }
        let c = s[j];
        if c == 34 {
            proof {
                lemma_str_rest_subrange(s@, i as int);
            }
            let contents = crate::textutil::copy_range(s, i, j);
            return Some((contents, j + 1));
        } else if c == 92 {
            if s.len() - j >= 2 && {
                let e = s[j + 1];
                e == 34 || e == 92 || e == 47 || e == 98 || e == 102 || e == 110 || e == 114
                    || e == 116
            } {
                j = j + 2;
            } else if s.len() - j >= 6 && s[j + 1] == 117 && is_hex_byte(s[j + 2]) && is_hex_byte(
                s[j + 3],
            ) && is_hex_byte(s[j + 4]) && is_hex_byte(s[j + 5]) {
                j = j + 6;
            } else {
                return None;
            }
        } else if c < 32 {
            return None;
        } else {
            j = j + 1;
        }
    }
}

/// Reads one JSON value beginning at the non-whitespace position `i`.
pub fn parse_value(s: &[u8], i: usize) -> (r: Option<(Json, usize)>)
    requires
        i <= s@.len(),
    ensures
        match spec_parse_value(s@, i as int) {
            Some(p) => r matches Some(q) && q.0@ == p.0 && q.1 == p.1 && i < q.1 <= s@.len(),
            None => r is None,
        },
    decreases s@.len() - i, 1int,
{
    if i >= s.len() {
        return None;
    }
    let c = s[i];
    if c == 110 {
        if s.len() - i >= 4 && s[i + 1] == 117 && s[i + 2] == 108 && s[i + 3] == 108 {
            assert(s@.subrange(i as int, i + 4) =~= spec_lit_null());
            return Some((Json::Null, i + 4));
        } else {
            proof {
                if i + 4 <= s@.len() {
                    assert(s@.subrange(i as int, i + 4)[1] == s@[i + 1]);
                    assert(s@.subrange(i as int, i + 4)[2] == s@[i + 2]);
                    assert(s@.subrange(i as int, i + 4)[3] == s@[i + 3]);
                }
            }
            return None;
        }
    } else if c == 116 {
        if s.len() - i >= 4 && s[i + 1] == 114 && s[i + 2] == 117 && s[i + 3] == 101 {
            assert(s@.subrange(i as int, i + 4) =~= spec_lit_true());
            return Some((Json::Bool(true), i + 4));
        } else {
            proof {
                if i + 4 <= s@.len() {
                    assert(s@.subrange(i as int, i + 4)[1] == s@[i + 1]);
                    assert(s@.subrange(i as int, i + 4)[2] == s@[i + 2]);
                    assert(s@.subrange(i as int, i + 4)[3] == s@[i + 3]);
                }
            }
            return None;
        }
    } else if c == 102 {
        if s.len() - i >= 5 && s[i + 1] == 97 && s[i + 2] == 108 && s[i + 3] == 115 && s[i + 4]
            == 101 {
            assert(s@.subrange(i as int, i + 5) =~= spec_lit_false());
            return Some((Json::Bool(false), i + 5));
        } else {
            proof {
                if i + 5 <= s@.len() {
                    assert(s@.subrange(i as int, i + 5)[1] == s@[i + 1]);
                    assert(s@.subrange(i as int, i + 5)[2] == s@[i + 2]);
                    assert(s@.subrange(i as int, i + 5)[3] == s@[i + 3]);
                    assert(s@.subrange(i as int, i + 5)[4] == s@[i + 4]);
                }
            }
            return None;
        }
    } else if c == 34 {
        match parse_str_rest(s, i + 1) {
            Some((contents, e)) => Some((Json::Str(contents), e)),
            None => None,
        }
    } else if c == 91 {
        let j = skip_ws(s, i + 1);
        if j < s.len() && s[j] == 93 {
            let items: Vec<Json> = Vec::new();
            assert(spec_view_items(items@) =~= Seq::<JsonV>::empty());
            return Some((Json::Arr(items), j + 1));
        }
        match parse_items(s, j) {
            Some((items, e)) => Some((Json::Arr(items), e)),
            None => None,
        }
    } else if c == 123 {
        let j = skip_ws(s, i + 1);
        if j < s.len() && s[j] == 125 {
            let members: Vec<(Vec<u8>, Json)> = Vec::new();
            assert(spec_view_members(members@) =~= Seq::<(Seq<u8>, JsonV)>::empty());
            return Some((Json::Obj(members), j + 1));
        }
        match parse_members(s, j) {
            Some((members, e)) => Some((Json::Obj(members), e)),
            None => None,
        }
    } else if c == 45 || (48 <= c && c <= 57) {
        match parse_num_end(s, i) {
            Some(e) => {
                if i < e {
                    let lexeme = crate::textutil::copy_range(s, i, e);
                    Some((Json::Num(lexeme), e))
                } else {
                    None
                }
            },
            None => None,
        }
    } else {
        None
    }
}

/// Reads the items of an array from the first item on.
fn parse_items(s: &[u8], j: usize) -> (r: Option<(Vec<Json>, usize)>)
    requires
        j <= s@.len(),
    ensures
        match spec_parse_items(s@, j as int) {
            Some(p) => r matches Some(q) && spec_view_items(q.0@) == p.0 && q.1 == p.1 && j
                < q.1 <= s@.len(),
            None => r is None,
        },
    decreases s@.len() - j, 2int,
{
    let first = parse_value(s, j);
    match first {
        Some((v, k)) => {
            let m = skip_ws(s, k);
            if m < s.len() && s[m] == 44 {
                let m2 = skip_ws(s, m + 1);
                match parse_items(s, m2) {
                    Some((rest, e)) => {
                        let mut out: Vec<Json> = Vec::new();
                        let ghost vj = v.view();
                        let ghost restv = rest@;
                        out.push(v);
                        let mut rest = rest;
                        out.append(&mut rest);
                        proof {
                            assert(out@ == seq![out@[0]] + restv);
                            lemma_view_items_append(seq![out@[0]], restv);
                            lemma_view_items_singleton(out@[0]);
                        }
                        Some((out, e))
                    },
                    None => None,
                }
            } else if m < s.len() && s[m] == 93 {
                let mut out: Vec<Json> = Vec::new();
                let ghost vj = v.view();
                out.push(v);
                proof {
                    assert(out@ =~= seq![out@[0]]);
                    lemma_view_items_singleton(out@[0]);
                }
                Some((out, m + 1))
            } else {
                None
            }
        },
        None => None,
    }
}

/// Reads the members of an object from the first key on.
fn parse_members(s: &[u8], j: usize) -> (r: Option<(Vec<(Vec<u8>, Json)>, usize)>)
    requires
        j <= s@.len(),
    ensures
        match spec_parse_members(s@, j as int) {
            Some(p) => r matches Some(q) && spec_view_members(q.0@) == p.0 && q.1 == p.1 && j
                < q.1 <= s@.len(),
            None => r is None,
        },
    decreases s@.len() - j, 2int,
{
    if !(j < s.len() && s[j] == 34) {
        return None;
    }
    match parse_str_rest(s, j + 1) {
        Some((key, k)) => {
            let m = skip_ws(s, k);
            if !(m < s.len() && s[m] == 58) {
                return None;
            }
            let vp = skip_ws(s, m + 1);
            match parse_value(s, vp) {
                Some((v, k2)) => {
                    let m3 = skip_ws(s, k2);
                    if m3 < s.len() && s[m3] == 44 {
                        let m4 = skip_ws(s, m3 + 1);
                        match parse_members(s, m4) {
                            Some((rest, e)) => {
                                let mut out: Vec<(Vec<u8>, Json)> = Vec::new();
                                let ghost keyv = key@;
                                let ghost vj = v.view();
                                let ghost restv = rest@;
                                out.push((key, v));
                                let mut rest = rest;
                                out.append(&mut rest);
                                proof {
                                    assert(out@ == seq![out@[0]] + restv);
                                    lemma_view_members_append(seq![out@[0]], restv);
                                    lemma_view_members_singleton(out@[0]);
                                }
                                Some((out, e))
                            },
                            None => None,
                        }
                    } else if m3 < s.len() && s[m3] == 125 {
                        let mut out: Vec<(Vec<u8>, Json)> = Vec::new();
                        let ghost keyv = key@;
                        let ghost vj = v.view();
                        out.push((key, v));
                        proof {
                            assert(out@ =~= seq![out@[0]]);
                            lemma_view_members_singleton(out@[0]);
                        }
                        Some((out, m3 + 1))
                    } else {
                        None
                    }
                },
                None => None,
            }
        },
        None => None,
    }
}

/// Reads a whole document: one value surrounded by whitespace only.
/// Succeeds exactly on well-formed JSON.
pub fn parse_json(s: &[u8]) -> (r: Option<Json>)
    ensures
        match spec_parse_json(s@) {
            Some(v) => r matches Some(q) && q@ == v,
            None => r is None,
        },
{
    let i = skip_ws(s, 0);
    match parse_value(s, i) {
        Some((v, e)) => {
            let t = skip_ws(s, e);
            if t == s.len() {
                Some(v)
            } else {
                None
            }
        },
        None => None,
    }
}

} // verus!
