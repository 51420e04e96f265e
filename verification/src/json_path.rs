//! A small locator-expression evaluator over the JSON claims tree: the
//! subset of JSONPath that constraint fields use. An expression is a `$`
//! root followed by member steps (`.name`) and index steps (`[3]`); each
//! expression resolves to zero or one value. An index step carries at most
//! nine digits.

use vstd::prelude::*;
use vstd::string::StrSliceExecFns;

use crate::json_value::JsonValue;

verus! {

/// One parsed step of a locator expression.
#[derive(Debug)]
pub enum PathSegment {
    /// A member step: descend into the named property of an object.
    Key(String),
    /// An index step: descend into the numbered element of an array.
    Index(usize),
}

/// The mathematical reading of one step.
pub enum SpecPathSegment {
    Key(Seq<char>),
    Index(int),
}

impl View for PathSegment {
    type V = SpecPathSegment;

    open spec fn view(&self) -> SpecPathSegment {
        match self {
            PathSegment::Key(k) => SpecPathSegment::Key(k@),
            PathSegment::Index(n) => SpecPathSegment::Index(*n as int),
        }
    }
}

/// The readings of a parsed step list.
pub open spec fn seg_views(ss: Seq<PathSegment>) -> Seq<SpecPathSegment> {
    ss.map_values(|p: PathSegment| p@)
}

/// Whether `c` ends a member name: a step delimiter.
pub open spec fn spec_is_term(c: char) -> bool {
    c == '.' || c == '[' || c == ']'
}

/// Whether `c` is a decimal digit.
pub open spec fn spec_is_digit(c: char) -> bool {
    48 <= (c as u32) <= 57
}

/// The value of the digit `c`.
pub open spec fn spec_digit(c: char) -> int {
    (c as u32) - 48
}

/// How many member-name characters run from position `i`.
pub open spec fn spec_ident_len(s: Seq<char>, i: int) -> nat
    decreases s.len() - i,
{
    if i < 0 || i >= s.len() || spec_is_term(s[i]) {
        0
    } else {
        1 + spec_ident_len(s, i + 1)
    }
}

/// How many digits run from position `i`.
pub open spec fn spec_digits_len(s: Seq<char>, i: int) -> nat
    decreases s.len() - i,
{
    if i < 0 || i >= s.len() || !spec_is_digit(s[i]) {
        0
    } else {
        1 + spec_digits_len(s, i + 1)
    }
}

/// The value of the digit run `s[i..j]`.
pub open spec fn spec_digits_val(s: Seq<char>, i: int, j: int) -> int
    decreases j - i,
{
    if j <= i {
        0
    } else {
        spec_digits_val(s, i, j - 1) * 10 + spec_digit(s[j - 1])
    }
}

/// The steps written from position `i` on, or nothing when the text does
/// not follow the expression grammar.
pub open spec fn spec_parse_rest(s: Seq<char>, i: int) -> Option<Seq<SpecPathSegment>>
    decreases s.len() - i,
    via spec_parse_rest_dec
{
    if i < 0 || i >= s.len() {
        Some(Seq::empty())
    } else if s[i] == '.' {
        let j = i + 1 + spec_ident_len(s, i + 1);
        if j == i + 1 {
            None
        } else {
            match spec_parse_rest(s, j) {
                Some(rest) => Some(seq![SpecPathSegment::Key(s.subrange(i + 1, j))] + rest),
                None => None,
            }
        }
    } else if s[i] == '[' {
        let j = i + 1 + spec_digits_len(s, i + 1);
        if j == i + 1 || j - (i + 1) > 9 || j >= s.len() || s[j] != ']' {
            None
        } else {
            match spec_parse_rest(s, j + 1) {
                Some(rest) => Some(
                    seq![SpecPathSegment::Index(spec_digits_val(s, i + 1, j))] + rest,
                ),
                None => None,
            }
        }
    } else {
        None
    }
}

/// A member-name run cannot outrun the text.
proof fn lemma_ident_len_ub(s: Seq<char>, i: int)
    requires
        0 <= i <= s.len(),
    ensures
        spec_ident_len(s, i) <= s.len() - i,
    decreases s.len() - i,
{
    if i < s.len() && !spec_is_term(s[i]) {
        lemma_ident_len_ub(s, i + 1);
    }
}

/// A digit run cannot outrun the text.
proof fn lemma_digits_len_ub(s: Seq<char>, i: int)
    requires
        0 <= i <= s.len(),
    ensures
        spec_digits_len(s, i) <= s.len() - i,
    decreases s.len() - i,
{
    if i < s.len() && spec_is_digit(s[i]) {
        lemma_digits_len_ub(s, i + 1);
    }
}

#[via_fn]
proof fn spec_parse_rest_dec(s: Seq<char>, i: int) {
    if 0 <= i < s.len() {
        lemma_ident_len_ub(s, i + 1);
        lemma_digits_len_ub(s, i + 1);
    }
}

/// The steps of a whole locator expression: a `$` root followed by steps.
pub open spec fn spec_parse_path(s: Seq<char>) -> Option<Seq<SpecPathSegment>> {
    if s.len() == 0 || s[0] != '$' {
        None
    } else {
        spec_parse_rest(s, 1)
    }
}

/// The value the steps lead to from `v`, when every step resolves.
pub open spec fn spec_walk(segs: Seq<SpecPathSegment>, v: JsonValue) -> Option<JsonValue>
    decreases segs.len(),
{
    if segs.len() == 0 {
        Some(v)
    } else {
        match segs[0] {
            SpecPathSegment::Key(k) => match v {
                JsonValue::Object(obj) => match JsonValue::spec_obj_get(obj@, k) {
                    Some(c) => spec_walk(segs.drop_first(), c),
                    None => None,
                },
                _ => None,
            },
            SpecPathSegment::Index(n) => match v {
                JsonValue::Array(arr) => if 0 <= n < arr@.len() {
                    spec_walk(segs.drop_first(), arr@[n])
                } else {
                    None
                },
                _ => None,
            },
        }
    }
}

/// What a locator expression resolves to against `v`: nothing when the
/// expression is malformed or some step does not resolve.
pub open spec fn spec_resolve_path(path: Seq<char>, v: JsonValue) -> Option<JsonValue> {
    match spec_parse_path(path) {
        Some(segs) => spec_walk(segs, v),
        None => None,
    }
}

/// A scan that stops at the first delimiter from `i`, at `j`, measures the
/// member-name run exactly.
proof fn lemma_ident_len_char(s: Seq<char>, i: int, j: int)
    requires
        0 <= i <= j <= s.len(),
        forall|k: int| i <= k < j ==> !spec_is_term(#[trigger] s[k]),
        j == s.len() || spec_is_term(s[j]),
    ensures
        i + spec_ident_len(s, i) == j,
    decreases j - i,
{
    if i < j {
        lemma_ident_len_char(s, i + 1, j);
    }
}

/// A scan that stops at the first non-digit from `i`, at `j`, measures the
/// digit run exactly.
proof fn lemma_digits_len_char(s: Seq<char>, i: int, j: int)
    requires
        0 <= i <= j <= s.len(),
        forall|k: int| i <= k < j ==> spec_is_digit(#[trigger] s[k]),
        j == s.len() || !spec_is_digit(s[j]),
    ensures
        i + spec_digits_len(s, i) == j,
    decreases j - i,
{
    if i < j {
        lemma_digits_len_char(s, i + 1, j);
    }
}

/// A digit run of at most nine digits values below one billion.
proof fn lemma_digits_val_bound(s: Seq<char>, i: int, j: int)
    requires
        i <= j,
        j - i <= 9,
        forall|k: int| i <= k < j ==> spec_is_digit(#[trigger] s[k]),
    ensures
        0 <= spec_digits_val(s, i, j) < 1000000000,
{
    lemma_digits_val_pow_bound(s, i, j);
    lemma_pow10_le(j - i, 9);
    reveal_with_fuel(pow10, 11);
    assert(pow10(9) == 1000000000);
}

/// Ten to the `e`.
pub open spec fn pow10(e: int) -> int
    decreases e,
{
    if e <= 0 {
        1
    } else {
        10 * pow10(e - 1)
    }
}

/// A digit run of `j - i` digits values below ten to the `j - i`.
proof fn lemma_digits_val_pow_bound(s: Seq<char>, i: int, j: int)
    requires
        i <= j,
        forall|k: int| i <= k < j ==> spec_is_digit(#[trigger] s[k]),
    ensures
        0 <= spec_digits_val(s, i, j) < pow10(j - i),
    decreases j - i,
{
    if i < j {
        lemma_digits_val_pow_bound(s, i, j - 1);
        assert(spec_digits_val(s, i, j) < pow10(j - i)) by (nonlinear_arith)
            requires
                spec_digits_val(s, i, j) == spec_digits_val(s, i, j - 1) * 10 + spec_digit(
                    s[j - 1],
                ),
                0 <= spec_digits_val(s, i, j - 1) < pow10(j - i - 1),
                spec_digit(s[j - 1]) <= 9,
                0 <= spec_digit(s[j - 1]),
                pow10(j - i) == 10 * pow10(j - i - 1),
        ;
    }
}

/// Ten to a smaller exponent is no larger.
proof fn lemma_pow10_le(a: int, b: int)
    requires
        0 <= a <= b,
    ensures
        pow10(a) <= pow10(b),
    decreases b - a,
{
    if a < b {
        lemma_pow10_le(a, b - 1);
        assert(pow10(b) == 10 * pow10(b - 1));
        assert(pow10(b - 1) >= 1) by { lemma_pow10_pos(b - 1) }
    }
}

/// Ten to any exponent is positive.
proof fn lemma_pow10_pos(e: int)
    ensures
        pow10(e) >= 1,
    decreases e,
{
    if e > 0 {
        lemma_pow10_pos(e - 1);
    }
}

/// Parses a locator expression into its steps, or nothing when the text
/// does not follow the grammar.
#[verifier::loop_isolation(false)]
pub fn parse_path(path: &String) -> (r: Option<Vec<PathSegment>>)
    ensures
        match r {
            Some(segs) => spec_parse_path(path@) == Some(seg_views(segs@)),
            None => spec_parse_path(path@) is None,
        },
{
    let s: &str = path.as_str();
    let n: usize = s.unicode_len();
    if n == 0 || s.get_char(0) != '$' {
        return None;
    }
    let mut segs: Vec<PathSegment> = Vec::new();
    let mut i: usize = 1;
    assert(seg_views(segs@) =~= Seq::<SpecPathSegment>::empty());
    while i < n
        invariant
            1 <= i <= n,
            match spec_parse_rest(path@, i as int) {
                Some(rest) => spec_parse_path(path@) == Some(seg_views(segs@) + rest),
                None => spec_parse_path(path@) is None,
            },
        decreases n - i,
    {
        let c: char = s.get_char(i);
        if c == '.' {
            let mut j: usize = i + 1;
            while j < n
                invariant
                    i + 1 <= j <= n,
                    forall|k: int| i + 1 <= k < j ==> !spec_is_term(#[trigger] path@[k]),
                decreases n - j,
            {
                let t: char = s.get_char(j);
                if t == '.' || t == '[' || t == ']' {
                    break ;
                }
                j = j + 1;
            }
            proof {
                lemma_ident_len_char(path@, i as int + 1, j as int);
            }
            if j == i + 1 {
                return None;
            }
            let ident: String = s.substring_char(i + 1, j).to_owned();
            let ghost old_segs = segs@;
            segs.push(PathSegment::Key(ident));
            proof {
                let kv = SpecPathSegment::Key(path@.subrange(i as int + 1, j as int));
                assert(ident@ == path@.subrange(i as int + 1, j as int));
                assert(seg_views(segs@) =~= seg_views(old_segs).push(kv));
                match spec_parse_rest(path@, j as int) {
                    Some(rest1) => {
                        assert(spec_parse_rest(path@, i as int) == Some(seq![kv] + rest1));
                        assert(seg_views(old_segs) + (seq![kv] + rest1) =~= seg_views(segs@)
                            + rest1);
                    },
                    None => {
                        assert(spec_parse_rest(path@, i as int) is None);
                    },
                }
            }
            i = j;
        } else if c == '[' {
            let mut j: usize = i + 1;
            let mut acc: u64 = 0;
            while j < n
                invariant
                    i + 1 <= j <= n,
                    j - (i + 1) <= 9,
                    forall|k: int| i + 1 <= k < j ==> spec_is_digit(#[trigger] path@[k]),
                    acc == spec_digits_val(path@, i as int + 1, j as int),
                    acc < 1000000000,
                decreases n - j,
            {
                let t: char = s.get_char(j);
                if !(t >= '0' && t <= '9') {
                    break ;
                }
                if j - (i + 1) >= 9 {
                    // a tenth digit: the run is too long whatever follows
                    proof {
                        assert(spec_is_digit(path@[j as int]));
                        assert(spec_digits_len(path@, i as int + 1) > 9) by {
                            lemma_digits_len_lower(path@, i as int + 1, j as int + 1);
                        }
                        assert(spec_parse_rest(path@, i as int) is None);
                    }
                    return None;
                }
                acc = acc * 10 + ((t as u32) - 48) as u64;
                j = j + 1;
                proof {
                    lemma_digits_val_bound(path@, i as int + 1, j as int);
                }
            }
            proof {
                lemma_digits_len_char(path@, i as int + 1, j as int);
            }
            if j == i + 1 {
                return None;
            }
            if j >= n {
                return None;
            }
            if s.get_char(j) != ']' {
                return None;
            }
            let ghost old_segs = segs@;
            segs.push(PathSegment::Index(acc as usize));
            proof {
                let nv = SpecPathSegment::Index(spec_digits_val(path@, i as int + 1, j as int));
                assert(acc as usize as int == acc as int);
                assert(seg_views(segs@) =~= seg_views(old_segs).push(nv));
                match spec_parse_rest(path@, j as int + 1) {
                    Some(rest1) => {
                        assert(spec_parse_rest(path@, i as int) == Some(seq![nv] + rest1));
                        assert(seg_views(old_segs) + (seq![nv] + rest1) =~= seg_views(segs@)
                            + rest1);
                    },
                    None => {
                        assert(spec_parse_rest(path@, i as int) is None);
                    },
                }
            }
            i = j + 1;
        } else {
            return None;
        }
    }
    assert(spec_parse_rest(path@, i as int) == Some(Seq::<SpecPathSegment>::empty()));
    assert(seg_views(segs@) + Seq::<SpecPathSegment>::empty() =~= seg_views(segs@));
    Some(segs)
}

/// A digit at every position up to `j` makes the digit run from `i` at
/// least `j - i` long.
proof fn lemma_digits_len_lower(s: Seq<char>, i: int, j: int)
    requires
        0 <= i <= j <= s.len(),
        forall|k: int| i <= k < j ==> spec_is_digit(#[trigger] s[k]),
    ensures
        spec_digits_len(s, i) >= j - i,
    decreases j - i,
{
    if i < j {
        lemma_digits_len_lower(s, i + 1, j);
    }
}

/// Follows parsed steps down the tree from `v`.
#[verifier::loop_isolation(false)]
pub fn walk_path<'a>(segs: &Vec<PathSegment>, v: &'a JsonValue) -> (r: Option<&'a JsonValue>)
    ensures
        match r {
            Some(rv) => spec_walk(seg_views(segs@), *v) == Some(*rv),
            None => spec_walk(seg_views(segs@), *v) is None,
        },
{
    let mut cur: &JsonValue = v;
    let mut k: usize = 0;
    assert(seg_views(segs@).skip(0) =~= seg_views(segs@));
    while k < segs.len()
        invariant
            k <= segs@.len(),
            spec_walk(seg_views(segs@), *v) == spec_walk(seg_views(segs@).skip(k as int), *cur),
        decreases segs@.len() - k,
    {
        proof {
            assert(seg_views(segs@).skip(k as int)[0] == segs@[k as int]@);
            assert(seg_views(segs@).skip(k as int).drop_first() =~= seg_views(segs@).skip(
                k as int + 1,
            ));
        }
        match &segs[k] {
            PathSegment::Key(key) => {
                match cur {
                    JsonValue::Object(obj) => {
                        match JsonValue::obj_get(obj, key) {
                            Some(child) => {
                                cur = child;
                            },
                            None => {
                                return None;
                            },
                        }
                    },
                    _ => {
                        return None;
                    },
                }
            },
            PathSegment::Index(idx) => {
                match cur {
                    JsonValue::Array(arr) => {
                        if *idx < arr.len() {
                            cur = &arr[*idx];
                        } else {
                            return None;
                        }
                    },
                    _ => {
                        return None;
                    },
                }
            },
        }
        k = k + 1;
    }
    proof {
        assert(seg_views(segs@).skip(segs@.len() as int) =~= Seq::<SpecPathSegment>::empty());
    }
    Some(cur)
}

/// Resolves a locator expression against `v`: nothing when the expression
/// is malformed or some step does not resolve.
pub fn resolve_path<'a>(path: &String, v: &'a JsonValue) -> (r: Option<&'a JsonValue>)
    ensures
        match r {
            Some(rv) => spec_resolve_path(path@, *v) == Some(*rv),
            None => spec_resolve_path(path@, *v) is None,
        },
{
    match parse_path(path) {
        Some(segs) => walk_path(&segs, v),
        None => None,
    }
}

} // verus!
