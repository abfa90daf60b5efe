//! A small JSON document model and a verified parser for the subset of JSON
//! that the exchange feeds use: objects, arrays, strings without escape
//! sequences, plain decimal numbers (kept as their lexeme), `true`, `false`
//! and `null`. Anything outside the subset fails to parse, and the caller
//! drops the message, which is the behavior the feed loops need.

use vstd::prelude::*;

verus! {

broadcast use vstd::std_specs::vec::group_vec_axioms, vstd::seq::group_seq_axioms;

/// A parsed JSON document. Number lexemes are kept verbatim, since every
/// price in the wire formats is a decimal string anyway.
pub enum Json {
    Null,
    Bool(bool),
    Num(String),
    Str(String),
    Arr(Vec<Json>),
    Obj(Vec<(String, Json)>),
}

/// The mathematical shape of a parsed document: the same tree over sequences.
pub ghost enum SpecJson {
    Null,
    Bool(bool),
    Num(Seq<char>),
    Str(Seq<char>),
    Arr(Seq<SpecJson>),
    Obj(Seq<(Seq<char>, SpecJson)>),
}

impl Json {
    /// The abstraction of a document tree.
    pub open spec fn view(self) -> SpecJson
        decreases self,
    {
        match self {
            Json::Null => SpecJson::Null,
            Json::Bool(b) => SpecJson::Bool(b),
            Json::Num(s) => SpecJson::Num(s@),
            Json::Str(s) => SpecJson::Str(s@),
            Json::Arr(vs) => SpecJson::Arr(Self::view_list(vs@)),
            Json::Obj(ms) => SpecJson::Obj(Self::view_members(ms@)),
        }
    }

    /// The abstraction of a sequence of array elements.
    pub open spec fn view_list(s: Seq<Json>) -> Seq<SpecJson>
        decreases s,
    {
        if s.len() == 0 {
            Seq::empty()
        } else {
            Self::view_list(s.drop_last()).push(s.last().view())
        }
    }

    /// The abstraction of a sequence of object members.
    pub open spec fn view_members(s: Seq<(String, Json)>) -> Seq<(Seq<char>, SpecJson)>
        decreases s,
    {
        if s.len() == 0 {
            Seq::empty()
        } else {
            Self::view_members(s.drop_last()).push((s.last().0@, s.last().1.view()))
        }
    }
}

/// Whitespace accepted between tokens.
pub open spec fn is_ws(c: char) -> bool {
    c == ' ' || c == '\n' || c == '\r' || c == '\t'
}

/// A decimal digit.
pub open spec fn is_digit(c: char) -> bool {
    '0' <= c && c <= '9'
}

/// The position `j`, forced to be at least `lo` and at most `hi`. Every
/// parser below in fact returns an advanced, in-bounds position; the bounds
/// only make that obvious to the termination checker.
pub open spec fn clamped(j: nat, lo: nat, hi: nat) -> nat {
    let a = if j < lo {
        lo
    } else {
        j
    };
    if a > hi {
        hi
    } else {
        a
    }
}

/// First position at or after `i` that does not hold a digit.
pub open spec fn sp_digits_end(s: Seq<char>, i: nat) -> nat
    decreases s.len() - i,
{
    if i < s.len() && is_digit(s[i as int]) {
        sp_digits_end(s, (i + 1) as nat)
    } else {
        i
    }
}

/// First position at or after `i` that does not hold whitespace.
pub open spec fn sp_skip_ws(s: Seq<char>, i: nat) -> nat
    decreases s.len() - i,
{
    if i < s.len() && is_ws(s[i as int]) {
        sp_skip_ws(s, (i + 1) as nat)
    } else {
        i
    }
}

/// A number lexeme starting at `i`: an optional minus sign, digits, and an
/// optional fractional part. Exponents are not part of the subset.
pub open spec fn sp_number(s: Seq<char>, i: nat) -> Option<(Seq<char>, nat)> {
    let a = if i < s.len() && s[i as int] == '-' {
        (i + 1) as nat
    } else {
        i
    };
    let e = sp_digits_end(s, a);
    if e == a {
        None
    } else if e < s.len() && s[e as int] == '.' {
        let f = sp_digits_end(s, (e + 1) as nat);
        if f == e + 1 {
            None
        } else {
            Some((s.subrange(i as int, f as int), f))
        }
    } else {
        Some((s.subrange(i as int, e as int), e))
    }
}

/// The body of a string literal starting just after the opening quote.
/// Escape sequences are outside the subset and fail the parse.
pub open spec fn sp_string(s: Seq<char>, i: nat) -> Option<(Seq<char>, nat)>
    decreases s.len() - i,
{
    if i >= s.len() {
        None
    } else if s[i as int] == '"' {
        Some((Seq::empty(), (i + 1) as nat))
    } else if s[i as int] == '\\' {
        None
    } else {
        match sp_string(s, (i + 1) as nat) {
            Some((t, j)) => Some((seq![s[i as int]] + t, j)),
            None => None,
        }
    }
}

/// A value starting at `i`, after any leading whitespace.
pub open spec fn sp_value(s: Seq<char>, i: nat) -> Option<(SpecJson, nat)>
    decreases s.len() - i, 1nat,
{
    if i >= s.len() {
        None
    } else {
        let c = s[i as int];
        if is_ws(c) {
            sp_value(s, (i + 1) as nat)
        } else if c == '"' {
            match sp_string(s, (i + 1) as nat) {
                Some((t, j)) => Some((SpecJson::Str(t), j)),
                None => None,
            }
        } else if c == '[' {
            match sp_elems(s, (i + 1) as nat, true) {
                Some((vs, j)) => Some((SpecJson::Arr(vs), j)),
                None => None,
            }
        } else if c == '{' {
            match sp_members(s, (i + 1) as nat, true) {
                Some((ms, j)) => Some((SpecJson::Obj(ms), j)),
                None => None,
            }
        } else if c == '-' || is_digit(c) {
            match sp_number(s, i) {
                Some((t, j)) => Some((SpecJson::Num(t), j)),
                None => None,
            }
        } else if c == 't' {
            if i + 4 <= s.len() && s[i + 1 as int] == 'r' && s[i + 2 as int] == 'u' && s[i + 3 as int] == 'e' {
                Some((SpecJson::Bool(true), (i + 4) as nat))
            } else {
                None
            }
        } else if c == 'f' {
            if i + 5 <= s.len() && s[i + 1 as int] == 'a' && s[i + 2 as int] == 'l' && s[i + 3 as int] == 's'
                && s[i + 4 as int] == 'e' {
                Some((SpecJson::Bool(false), (i + 5) as nat))
            } else {
                None
            }
        } else if c == 'n' {
            if i + 4 <= s.len() && s[i + 1 as int] == 'u' && s[i + 2 as int] == 'l' && s[i + 3 as int] == 'l' {
                Some((SpecJson::Null, (i + 4) as nat))
            } else {
                None
            }
        } else {
            None
        }
    }
}

/// Array elements starting at `i`, just after `[` (when `first` holds) or
/// just after a comma.
pub open spec fn sp_elems(s: Seq<char>, i: nat, first: bool) -> Option<(Seq<SpecJson>, nat)>
    decreases s.len() - i, 3nat,
{
    if i >= s.len() {
        None
    } else if is_ws(s[i as int]) {
        sp_elems(s, (i + 1) as nat, first)
    } else if s[i as int] == ']' && first {
        Some((Seq::empty(), (i + 1) as nat))
    } else {
        match sp_value(s, i) {
            Some((v, j)) => match sp_elems_tail(s, clamped(j, (i + 1) as nat, s.len())) {
                Some((rest, k)) => Some((seq![v] + rest, k)),
                None => None,
            },
            None => None,
        }
    }
}

/// What may follow an array element: a comma and more elements, or `]`.
pub open spec fn sp_elems_tail(s: Seq<char>, i: nat) -> Option<(Seq<SpecJson>, nat)>
    decreases s.len() - i, 0nat,
{
    if i >= s.len() {
        None
    } else if is_ws(s[i as int]) {
        sp_elems_tail(s, (i + 1) as nat)
    } else if s[i as int] == ']' {
        Some((Seq::empty(), (i + 1) as nat))
    } else if s[i as int] == ',' {
        sp_elems(s, (i + 1) as nat, false)
    } else {
        None
    }
}

/// One `"key": value` member starting at `i`.
pub open spec fn sp_member(s: Seq<char>, i: nat) -> Option<((Seq<char>, SpecJson), nat)>
    decreases s.len() - i, 2nat,
{
    if i >= s.len() {
        None
    } else if is_ws(s[i as int]) {
        sp_member(s, (i + 1) as nat)
    } else if s[i as int] == '"' {
        match sp_string(s, (i + 1) as nat) {
            Some((k, j)) => match sp_member_colon(s, clamped(j, (i + 1) as nat, s.len())) {
                Some((v, e)) => Some(((k, v), e)),
                None => None,
            },
            None => None,
        }
    } else {
        None
    }
}

/// The colon and value of a member, starting just after the key.
pub open spec fn sp_member_colon(s: Seq<char>, i: nat) -> Option<(SpecJson, nat)>
    decreases s.len() - i, 0nat,
{
    if i >= s.len() {
        None
    } else if is_ws(s[i as int]) {
        sp_member_colon(s, (i + 1) as nat)
    } else if s[i as int] == ':' {
        sp_value(s, (i + 1) as nat)
    } else {
        None
    }
}

/// Object members starting at `i`, just after `{` (when `first` holds) or
/// just after a comma.
pub open spec fn sp_members(s: Seq<char>, i: nat, first: bool) -> Option<
    (Seq<(Seq<char>, SpecJson)>, nat),
>
    decreases s.len() - i, 3nat,
{
    if i >= s.len() {
        None
    } else if is_ws(s[i as int]) {
        sp_members(s, (i + 1) as nat, first)
    } else if s[i as int] == '}' && first {
        Some((Seq::empty(), (i + 1) as nat))
    } else {
        match sp_member(s, i) {
            Some((kv, j)) => match sp_members_tail(s, clamped(j, (i + 1) as nat, s.len())) {
                Some((rest, k)) => Some((seq![kv] + rest, k)),
                None => None,
            },
            None => None,
        }
    }
}

/// What may follow an object member: a comma and more members, or `}`.
pub open spec fn sp_members_tail(s: Seq<char>, i: nat) -> Option<
    (Seq<(Seq<char>, SpecJson)>, nat),
>
    decreases s.len() - i, 0nat,
{
    if i >= s.len() {
        None
    } else if is_ws(s[i as int]) {
        sp_members_tail(s, (i + 1) as nat)
    } else if s[i as int] == '}' {
        Some((Seq::empty(), (i + 1) as nat))
    } else if s[i as int] == ',' {
        sp_members(s, (i + 1) as nat, false)
    } else {
        None
    }
}

/// A whole document: one value, then only whitespace to the end.
pub open spec fn spec_parse_json(s: Seq<char>) -> Option<SpecJson> {
    match sp_value(s, 0) {
        Some((v, j)) => {
            if sp_skip_ws(s, j) >= s.len() {
                Some(v)
            } else {
                None
            }
        },
        None => None,
    }
}

} // verus!

verus! {

/// Prepending one element commutes with `view_list`.
proof fn lemma_view_list_prepend(x: Json, s: Seq<Json>)
    ensures
        Json::view_list(seq![x] + s) == seq![x.view()] + Json::view_list(s),
    decreases s.len(),
{
    if s.len() == 0 {
        reveal_with_fuel(Json::view_list, 3);
        assert(seq![x] + s =~= seq![x]);
        assert(seq![x].drop_last() =~= Seq::<Json>::empty());
        assert(Json::view_list(seq![x] + s) =~= seq![x.view()] + Json::view_list(s));
    } else {
        lemma_view_list_prepend(x, s.drop_last());
        assert((seq![x] + s).drop_last() =~= seq![x] + s.drop_last());
        assert((seq![x] + s).last() == s.last());
        assert(Json::view_list(seq![x] + s) =~= seq![x.view()] + Json::view_list(s));
    }
}

/// Prepending one member commutes with `view_members`.
proof fn lemma_view_members_prepend(x: (String, Json), s: Seq<(String, Json)>)
    ensures
        Json::view_members(seq![x] + s) == seq![(x.0@, x.1.view())] + Json::view_members(s),
    decreases s.len(),
{
    if s.len() == 0 {
        reveal_with_fuel(Json::view_members, 3);
        assert(seq![x] + s =~= seq![x]);
        assert(seq![x].drop_last() =~= Seq::<(String, Json)>::empty());
        assert(Json::view_members(seq![x] + s) =~= seq![(x.0@, x.1.view())]
            + Json::view_members(s));
    } else {
        lemma_view_members_prepend(x, s.drop_last());
        assert((seq![x] + s).drop_last() =~= seq![x] + s.drop_last());
        assert((seq![x] + s).last() == s.last());
        assert(Json::view_members(seq![x] + s) =~= seq![(x.0@, x.1.view())]
            + Json::view_members(s));
    }
}

/// Whether a character is whitespace.
fn is_ws_exec(c: char) -> (r: bool)
    ensures
        r == is_ws(c),
{
    c == ' ' || c == '\n' || c == '\r' || c == '\t'
}

/// Whether a character is a decimal digit.
fn is_digit_exec(c: char) -> (r: bool)
    ensures
        r == is_digit(c),
{
    c >= '0' && c <= '9'
}

/// The first non-digit position at or after `i`.
fn e_digits_end(s: &str, n: usize, i: usize) -> (r: usize)
    requires
        n == s@.len(),
        i <= n,
    ensures
        r as nat == sp_digits_end(s@, i as nat),
        i <= r <= n,
    decreases n - i,
{
    if i < n && is_digit_exec(s.get_char(i)) {
        e_digits_end(s, n, i + 1)
    } else {
        i
    }
}

/// The first non-whitespace position at or after `i`.
fn e_skip_ws(s: &str, n: usize, i: usize) -> (r: usize)
    requires
        n == s@.len(),
        i <= n,
    ensures
        r as nat == sp_skip_ws(s@, i as nat),
        i <= r <= n,
    decreases n - i,
{
    if i < n && is_ws_exec(s.get_char(i)) {
        e_skip_ws(s, n, i + 1)
    } else {
        i
    }
}

/// The body of a string literal, starting just after the opening quote.
fn e_string(s: &str, n: usize, i: usize) -> (r: Option<(String, usize)>)
    requires
        n == s@.len(),
        i <= n,
    ensures
        (match r {
            Some(tj) => sp_string(s@, i as nat) == Some((tj.0@, tj.1 as nat)) && i < tj.1 <= n,
            None => sp_string(s@, i as nat) is None,
        }),
    decreases n - i,
{
    if i >= n {
        return None;
    }
    let c = s.get_char(i);
    if c == '"' {
        Some((String::new(), i + 1))
    } else if c == '\\' {
        None
    } else {
        match e_string(s, n, i + 1) {
            Some((t, j)) => {
                let mut out = String::new();
                out.push(c);
                out.append(t.as_str());
                proof {
                    assert(out@ =~= seq![s@[i as int]] + t@);
                }
                Some((out, j))
            },
            None => None,
        }
    }
}

/// A number lexeme starting at `i`.
fn e_number(s: &str, n: usize, i: usize) -> (r: Option<(String, usize)>)
    requires
        n == s@.len(),
        i <= n,
    ensures
        (match r {
            Some(tj) => sp_number(s@, i as nat) == Some((tj.0@, tj.1 as nat)) && i < tj.1 <= n,
            None => sp_number(s@, i as nat) is None,
        }),
{
    let a = if i < n && s.get_char(i) == '-' {
        i + 1
    } else {
        i
    };
    let e = e_digits_end(s, n, a);
    if e == a {
        None
    } else if e < n && s.get_char(e) == '.' {
        let f = e_digits_end(s, n, e + 1);
        if f == e + 1 {
            None
        } else {
            Some((s.substring_char(i, f).to_owned(), f))
        }
    } else {
        Some((s.substring_char(i, e).to_owned(), e))
    }
}

/// A value starting at `i`, mirroring `sp_value`.
fn e_value(s: &str, n: usize, i: usize) -> (r: Option<(Json, usize)>)
    requires
        n == s@.len(),
        i <= n,
    ensures
        (match r {
            Some(vj) => sp_value(s@, i as nat) == Some((vj.0.view(), vj.1 as nat)) && i < vj.1
                <= n,
            None => sp_value(s@, i as nat) is None,
        }),
    decreases n - i, 1nat,
{
    if i >= n {
        return None;
    }
    let c = s.get_char(i);
    if is_ws_exec(c) {
        e_value(s, n, i + 1)
    } else if c == '"' {
        match e_string(s, n, i + 1) {
            Some((t, j)) => Some((Json::Str(t), j)),
            None => None,
        }
    } else if c == '[' {
        match e_elems(s, n, i + 1, true) {
            Some((vs, j)) => Some((Json::Arr(vs), j)),
            None => None,
        }
    } else if c == '{' {
        match e_members(s, n, i + 1, true) {
            Some((ms, j)) => Some((Json::Obj(ms), j)),
            None => None,
        }
    } else if c == '-' || is_digit_exec(c) {
        match e_number(s, n, i) {
            Some((t, j)) => Some((Json::Num(t), j)),
            None => None,
        }
    } else if c == 't' {
        if n - i >= 4 && s.get_char(i + 1) == 'r' && s.get_char(i + 2) == 'u' && s.get_char(
            i + 3,
        ) == 'e' {
            Some((Json::Bool(true), i + 4))
        } else {
            None
        }
    } else if c == 'f' {
        if n - i >= 5 && s.get_char(i + 1) == 'a' && s.get_char(i + 2) == 'l' && s.get_char(
            i + 3,
        ) == 's' && s.get_char(i + 4) == 'e' {
            Some((Json::Bool(false), i + 5))
        } else {
            None
        }
    } else if c == 'n' {
        if n - i >= 4 && s.get_char(i + 1) == 'u' && s.get_char(i + 2) == 'l' && s.get_char(
            i + 3,
        ) == 'l' {
            Some((Json::Null, i + 4))
        } else {
            None
        }
    } else {
        None
    }
}

/// Array elements, mirroring `sp_elems`.
fn e_elems(s: &str, n: usize, i: usize, first: bool) -> (r: Option<(Vec<Json>, usize)>)
    requires
        n == s@.len(),
        i <= n,
    ensures
        (match r {
            Some(vj) => sp_elems(s@, i as nat, first) == Some(
                (Json::view_list(vj.0@), vj.1 as nat),
            ) && i < vj.1 <= n,
            None => sp_elems(s@, i as nat, first) is None,
        }),
    decreases n - i, 3nat,
{
    if i >= n {
        return None;
    }
    let c = s.get_char(i);
    if is_ws_exec(c) {
        return e_elems(s, n, i + 1, first);
    }
    if c == ']' && first {
        let vs: Vec<Json> = Vec::new();
        return Some((vs, i + 1));
    }
    match e_value(s, n, i) {
        Some((v, j)) => match e_elems_tail(s, n, j) {
            Some((mut rest, k)) => {
                proof {
                    lemma_view_list_prepend(v, rest@);
                }
                let ghost old_rest = rest@;
                rest.insert(0, v);
                proof {
                    assert(rest@ =~= seq![v] + old_rest);
                }
                Some((rest, k))
            },
            None => None,
        },
        None => None,
    }
}

/// The continuation after an array element, mirroring `sp_elems_tail`.
fn e_elems_tail(s: &str, n: usize, i: usize) -> (r: Option<(Vec<Json>, usize)>)
    requires
        n == s@.len(),
        i <= n,
    ensures
        (match r {
            Some(vj) => sp_elems_tail(s@, i as nat) == Some(
                (Json::view_list(vj.0@), vj.1 as nat),
            ) && i < vj.1 <= n,
            None => sp_elems_tail(s@, i as nat) is None,
        }),
    decreases n - i, 0nat,
{
    if i >= n {
        return None;
    }
    let c = s.get_char(i);
    if is_ws_exec(c) {
        e_elems_tail(s, n, i + 1)
    } else if c == ']' {
        let vs: Vec<Json> = Vec::new();
        Some((vs, i + 1))
    } else if c == ',' {
        e_elems(s, n, i + 1, false)
    } else {
        None
    }
}

/// One object member, mirroring `sp_member`.
fn e_member(s: &str, n: usize, i: usize) -> (r: Option<((String, Json), usize)>)
    requires
        n == s@.len(),
        i <= n,
    ensures
        (match r {
            Some(kvj) => sp_member(s@, i as nat) == Some(
                ((kvj.0.0@, kvj.0.1.view()), kvj.1 as nat),
            ) && i < kvj.1 <= n,
            None => sp_member(s@, i as nat) is None,
        }),
    decreases n - i, 2nat,
{
    if i >= n {
        return None;
    }
    let c = s.get_char(i);
    if is_ws_exec(c) {
        e_member(s, n, i + 1)
    } else if c == '"' {
        match e_string(s, n, i + 1) {
            Some((k, j)) => match e_member_colon(s, n, j) {
                Some((v, e)) => Some(((k, v), e)),
                None => None,
            },
            None => None,
        }
    } else {
        None
    }
}

/// The colon and value of a member, mirroring `sp_member_colon`.
fn e_member_colon(s: &str, n: usize, i: usize) -> (r: Option<(Json, usize)>)
    requires
        n == s@.len(),
        i <= n,
    ensures
        (match r {
            Some(vj) => sp_member_colon(s@, i as nat) == Some((vj.0.view(), vj.1 as nat)) && i
                < vj.1 <= n,
            None => sp_member_colon(s@, i as nat) is None,
        }),
    decreases n - i, 0nat,
{
    if i >= n {
        return None;
    }
    let c = s.get_char(i);
    if is_ws_exec(c) {
        e_member_colon(s, n, i + 1)
    } else if c == ':' {
        e_value(s, n, i + 1)
    } else {
        None
    }
}

/// Object members, mirroring `sp_members`.
fn e_members(s: &str, n: usize, i: usize, first: bool) -> (r: Option<
    (Vec<(String, Json)>, usize),
>)
    requires
        n == s@.len(),
        i <= n,
    ensures
        (match r {
            Some(mj) => sp_members(s@, i as nat, first) == Some(
                (Json::view_members(mj.0@), mj.1 as nat),
            ) && i < mj.1 <= n,
            None => sp_members(s@, i as nat, first) is None,
        }),
    decreases n - i, 3nat,
{
    if i >= n {
        return None;
    }
    let c = s.get_char(i);
    if is_ws_exec(c) {
        return e_members(s, n, i + 1, first);
    }
    if c == '}' && first {
        let ms: Vec<(String, Json)> = Vec::new();
        return Some((ms, i + 1));
    }
    match e_member(s, n, i) {
        Some((kv, j)) => match e_members_tail(s, n, j) {
            Some((mut rest, k)) => {
                proof {
                    lemma_view_members_prepend(kv, rest@);
                }
                let ghost old_rest = rest@;
                rest.insert(0, kv);
                proof {
                    assert(rest@ =~= seq![kv] + old_rest);
                }
                Some((rest, k))
            },
            None => None,
        },
        None => None,
    }
}

/// The continuation after an object member, mirroring `sp_members_tail`.
fn e_members_tail(s: &str, n: usize, i: usize) -> (r: Option<(Vec<(String, Json)>, usize)>)
    requires
        n == s@.len(),
        i <= n,
    ensures
        (match r {
            Some(mj) => sp_members_tail(s@, i as nat) == Some(
                (Json::view_members(mj.0@), mj.1 as nat),
            ) && i < mj.1 <= n,
            None => sp_members_tail(s@, i as nat) is None,
        }),
    decreases n - i, 0nat,
{
    if i >= n {
        return None;
    }
    let c = s.get_char(i);
    if is_ws_exec(c) {
        e_members_tail(s, n, i + 1)
    } else if c == '}' {
        let ms: Vec<(String, Json)> = Vec::new();
        Some((ms, i + 1))
    } else if c == ',' {
        e_members(s, n, i + 1, false)
    } else {
        None
    }
}

/// Parse a whole document: one value followed only by whitespace.
pub fn parse_json(s: &str) -> (r: Option<Json>)
    ensures
        (match r {
            Some(v) => spec_parse_json(s@) == Some(v.view()),
            None => spec_parse_json(s@) is None,
        }),
{
    let n = s.unicode_len();
    match e_value(s, n, 0) {
        Some((v, j)) => {
            let k = e_skip_ws(s, n, j);
            if k >= n {
                Some(v)
            } else {
                None
            }
        },
        None => None,
    }
}


/// Lengths and elements of `view_members` line up with the member vector.
pub proof fn lemma_view_members_index(s: Seq<(String, Json)>)
    ensures
        Json::view_members(s).len() == s.len(),
        forall|i: int|
            0 <= i < s.len() ==> #[trigger] Json::view_members(s)[i] == (s[i].0@, s[i].1.view()),
    decreases s.len(),
{
    if s.len() > 0 {
        lemma_view_members_index(s.drop_last());
    }
}

/// Lengths and elements of `view_list` line up with the element vector.
pub proof fn lemma_view_list_index(s: Seq<Json>)
    ensures
        Json::view_list(s).len() == s.len(),
        forall|i: int| 0 <= i < s.len() ==> #[trigger] Json::view_list(s)[i] == s[i].view(),
    decreases s.len(),
{
    if s.len() > 0 {
        lemma_view_list_index(s.drop_last());
    }
}

/// First member of `ms` named `key`, looked up from position `i` on.
pub open spec fn sp_obj_get_from(
    ms: Seq<(Seq<char>, SpecJson)>,
    key: Seq<char>,
    i: nat,
) -> Option<SpecJson>
    decreases ms.len() - i,
{
    if i >= ms.len() {
        None
    } else if ms[i as int].0 == key {
        Some(ms[i as int].1)
    } else {
        sp_obj_get_from(ms, key, (i + 1) as nat)
    }
}

/// First member of `ms` named `key`: how the adapters read a field.
pub open spec fn sp_obj_get(ms: Seq<(Seq<char>, SpecJson)>, key: Seq<char>) -> Option<SpecJson> {
    sp_obj_get_from(ms, key, 0)
}

fn obj_get_from<'a>(ms: &'a Vec<(String, Json)>, key: &str, i: usize) -> (r: Option<&'a Json>)
    requires
        i <= ms@.len(),
    ensures
        (match r {
            Some(v) => sp_obj_get_from(Json::view_members(ms@), key@, i as nat) == Some(v.view()),
            None => sp_obj_get_from(Json::view_members(ms@), key@, i as nat) is None,
        }),
    decreases ms@.len() - i,
{
    proof {
        lemma_view_members_index(ms@);
    }
    if i >= ms.len() {
        None
    } else if crate::text::str_eq_str(ms[i].0.as_str(), key) {
        Some(&ms[i].1)
    } else {
        obj_get_from(ms, key, i + 1)
    }
}

/// The first member named `key` of an object's member list.
pub fn obj_get<'a>(ms: &'a Vec<(String, Json)>, key: &str) -> (r: Option<&'a Json>)
    ensures
        (match r {
            Some(v) => sp_obj_get(Json::view_members(ms@), key@) == Some(v.view()),
            None => sp_obj_get(Json::view_members(ms@), key@) is None,
        }),
{
    obj_get_from(ms, key, 0)
}

} // verus!
