//! The canonical string form of relation tuples:
//! `namespace:object#relation@subject`, where the subject is either a UUID
//! or a nested `ns:obj#rel` subject set. UUIDs print as 36 lower-case
//! hyphenated hex characters. Printing is fixed by `spec_print_tuple`;
//! parsing is total, fixed by `spec_parse_tuple`, and rejects trailing
//! garbage.

use vstd::prelude::*;
use vstd::string::{StringExecFns, StrSliceExecFns};

use crate::relation_tuple::{subject_view, tuple_view, RelationTuple, Subject, SubjectV, TupleV};

verus! {

// ---------------------------------------------------------------------------
// UUID text
// ---------------------------------------------------------------------------

/// The lower-case hex digit for a value below 16.
pub open spec fn hex_digit_char(d: u128) -> char {
    if d == 0 {
        '0'
    } else if d == 1 {
        '1'
    } else if d == 2 {
        '2'
    } else if d == 3 {
        '3'
    } else if d == 4 {
        '4'
    } else if d == 5 {
        '5'
    } else if d == 6 {
        '6'
    } else if d == 7 {
        '7'
    } else if d == 8 {
        '8'
    } else if d == 9 {
        '9'
    } else if d == 10 {
        'a'
    } else if d == 11 {
        'b'
    } else if d == 12 {
        'c'
    } else if d == 13 {
        'd'
    } else if d == 14 {
        'e'
    } else {
        'f'
    }
}

/// The value of a lower-case hex digit, 16 for any other character.
pub open spec fn hex_char_val(c: char) -> u128 {
    if c == '0' {
        0
    } else if c == '1' {
        1
    } else if c == '2' {
        2
    } else if c == '3' {
        3
    } else if c == '4' {
        4
    } else if c == '5' {
        5
    } else if c == '6' {
        6
    } else if c == '7' {
        7
    } else if c == '8' {
        8
    } else if c == '9' {
        9
    } else if c == 'a' {
        10
    } else if c == 'b' {
        11
    } else if c == 'c' {
        12
    } else if c == 'd' {
        13
    } else if c == 'e' {
        14
    } else if c == 'f' {
        15
    } else {
        16
    }
}

/// Whether text position `i` of the 36-character form holds a hyphen.
pub open spec fn uuid_hyphen_at(i: int) -> bool {
    i == 8 || i == 13 || i == 18 || i == 23
}

/// The hex-digit index (0 the most significant of 32) behind text position
/// `i`.
pub open spec fn uuid_digit_index(i: int) -> int {
    if i > 23 {
        i - 4
    } else if i > 18 {
        i - 3
    } else if i > 13 {
        i - 2
    } else if i > 8 {
        i - 1
    } else {
        i
    }
}

/// The `k`-th hex digit of `v`, most significant first.
pub open spec fn uuid_nibble(v: u128, k: int) -> u128 {
    (v >> (((31 - k) * 4) as u128)) & 0xf
}

/// The canonical 36-character text of a UUID value.
pub open spec fn spec_uuid_text(v: u128) -> Seq<char> {
    Seq::new(
        36,
        |i: int|
            if uuid_hyphen_at(i) {
                '-'
            } else {
                hex_digit_char(uuid_nibble(v, uuid_digit_index(i)))
            },
    )
}

/// The value of 36 characters of canonical UUID text: hyphens in their
/// places, lower-case hex digits elsewhere; `None` on any other shape.
/// `spec_uuid_val_scan` folds the digits from text position `i` with
/// accumulator `acc`.
pub open spec fn spec_uuid_val_scan(t: Seq<char>, i: int, acc: u128) -> Option<u128>
    decreases 36 - i,
{
    if i < 0 || i > 36 {
        None
    } else if i == 36 {
        Some(acc)
    } else if uuid_hyphen_at(i) {
        if t[i] == '-' {
            spec_uuid_val_scan(t, i + 1, acc)
        } else {
            None
        }
    } else {
        let d = hex_char_val(t[i]);
        if d < 16 {
            spec_uuid_val_scan(t, i + 1, mul16_add(acc, d))
        } else {
            None
        }
    }
}

/// One folding step: shift the accumulator one hex digit and add the next.
pub open spec fn mul16_add(acc: u128, d: u128) -> u128 {
    ((acc << 4u128) | (d & 0xf)) as u128
}

pub open spec fn spec_uuid_val(t: Seq<char>) -> Option<u128> {
    if t.len() == 36 {
        spec_uuid_val_scan(t, 0, 0)
    } else {
        None
    }
}

/// Appends one lower-case hex digit.
fn append_hex(out: &mut String, d: u128)
    requires
        d < 16,
    ensures
        final (out)@ == old(out)@.push(hex_digit_char(d)),
{
    if d == 0 {
        out.append("0");
        proof {
            reveal_strlit("0");
            assert(old(out)@ + "0"@ =~= old(out)@.push(hex_digit_char(d)));
        }
    } else if d == 1 {
        out.append("1");
        proof {
            reveal_strlit("1");
            assert(old(out)@ + "1"@ =~= old(out)@.push(hex_digit_char(d)));
        }
    } else if d == 2 {
        out.append("2");
        proof {
            reveal_strlit("2");
            assert(old(out)@ + "2"@ =~= old(out)@.push(hex_digit_char(d)));
        }
    } else if d == 3 {
        out.append("3");
        proof {
            reveal_strlit("3");
            assert(old(out)@ + "3"@ =~= old(out)@.push(hex_digit_char(d)));
        }
    } else if d == 4 {
        out.append("4");
        proof {
            reveal_strlit("4");
            assert(old(out)@ + "4"@ =~= old(out)@.push(hex_digit_char(d)));
        }
    } else if d == 5 {
        out.append("5");
        proof {
            reveal_strlit("5");
            assert(old(out)@ + "5"@ =~= old(out)@.push(hex_digit_char(d)));
        }
    } else if d == 6 {
        out.append("6");
        proof {
            reveal_strlit("6");
            assert(old(out)@ + "6"@ =~= old(out)@.push(hex_digit_char(d)));
        }
    } else if d == 7 {
        out.append("7");
        proof {
            reveal_strlit("7");
            assert(old(out)@ + "7"@ =~= old(out)@.push(hex_digit_char(d)));
        }
    } else if d == 8 {
        out.append("8");
        proof {
            reveal_strlit("8");
            assert(old(out)@ + "8"@ =~= old(out)@.push(hex_digit_char(d)));
        }
    } else if d == 9 {
        out.append("9");
        proof {
            reveal_strlit("9");
            assert(old(out)@ + "9"@ =~= old(out)@.push(hex_digit_char(d)));
        }
    } else if d == 10 {
        out.append("a");
        proof {
            reveal_strlit("a");
            assert(old(out)@ + "a"@ =~= old(out)@.push(hex_digit_char(d)));
        }
    } else if d == 11 {
        out.append("b");
        proof {
            reveal_strlit("b");
            assert(old(out)@ + "b"@ =~= old(out)@.push(hex_digit_char(d)));
        }
    } else if d == 12 {
        out.append("c");
        proof {
            reveal_strlit("c");
            assert(old(out)@ + "c"@ =~= old(out)@.push(hex_digit_char(d)));
        }
    } else if d == 13 {
        out.append("d");
        proof {
            reveal_strlit("d");
            assert(old(out)@ + "d"@ =~= old(out)@.push(hex_digit_char(d)));
        }
    } else if d == 14 {
        out.append("e");
        proof {
            reveal_strlit("e");
            assert(old(out)@ + "e"@ =~= old(out)@.push(hex_digit_char(d)));
        }
    } else {
        out.append("f");
        proof {
            reveal_strlit("f");
            assert(old(out)@ + "f"@ =~= old(out)@.push(hex_digit_char(d)));
        }
    }
}

/// Appends the canonical 36-character text of `v`.
#[verifier::loop_isolation(false)]
fn append_uuid_text(out: &mut String, v: u128)
    ensures
        final (out)@ == old(out)@ + spec_uuid_text(v),
{
    let mut k: usize = 0;
    while k < 36
        invariant
            k <= 36,
            out@ == old(out)@ + spec_uuid_text(v).take(k as int),
        decreases 36 - k,
    {
        let hyphen = k == 8 || k == 13 || k == 18 || k == 23;
        if hyphen {
            out.append("-");
            proof {
                reveal_strlit("-");
                assert(out@ =~= old(out)@ + spec_uuid_text(v).take(k + 1));
            }
        } else {
            let idx: usize = if k > 23 {
                k - 4
            } else if k > 18 {
                k - 3
            } else if k > 13 {
                k - 2
            } else if k > 8 {
                k - 1
            } else {
                k
            };
            let sh: u128 = ((31 - idx) * 4) as u128;
            let d: u128 = (v >> sh) & 0xf;
            proof {
                assert(d == uuid_nibble(v, idx as int));
                assert(d < 16) by (bit_vector)
                    requires
                        d == (v >> sh) & 0xf,
                ;
            }
            append_hex(out, d);
            proof {
                assert(out@ =~= old(out)@ + spec_uuid_text(v).take(k + 1));
            }
        }
        k = k + 1;
    }
    proof {
        assert(spec_uuid_text(v).take(36) =~= spec_uuid_text(v));
    }
}

// ---------------------------------------------------------------------------
// Printing
// ---------------------------------------------------------------------------

/// The canonical text of a subject: a UUID for a direct identity,
/// `ns:obj#rel` for a subject set.
pub open spec fn spec_print_subject(s: SubjectV) -> Seq<char> {
    match s {
        SubjectV::Direct { id } => spec_uuid_text(id),
        SubjectV::SubjectSet { namespace, object, relation } => namespace + ":"@ + spec_uuid_text(
            object,
        ) + "#"@ + relation,
    }
}

/// The canonical text of a tuple: `namespace:object#relation@subject`.
pub open spec fn spec_print_tuple(t: TupleV) -> Seq<char> {
    t.namespace + ":"@ + spec_uuid_text(t.object) + "#"@ + t.relation + "@"@ + spec_print_subject(
        t.subject,
    )
}

impl Subject {
    /// The canonical text of this subject.
    pub fn canonical_string(&self) -> (r: String)
        ensures
            r@ == spec_print_subject(subject_view(*self)),
    {
        match self {
            Subject::Direct(d) => {
                let mut out = String::new();
                append_uuid_text(&mut out, d.id.value);
                out
            },
            Subject::SubjectSet(s) => {
                let mut out = s.namespace.clone();
                out.append(":");
                append_uuid_text(&mut out, s.object.value);
                out.append("#");
                out.append(s.relation.as_str());
                out
            },
        }
    }
}

impl RelationTuple {
    /// The canonical text of this tuple:
    /// `namespace:object#relation@subject`.
    pub fn canonical_string(&self) -> (r: String)
        ensures
            r@ == spec_print_tuple(tuple_view(*self)),
    {
        let mut out = self.namespace.clone();
        out.append(":");
        append_uuid_text(&mut out, self.object.value);
        out.append("#");
        out.append(self.relation.as_str());
        out.append("@");
        let subj = self.subject.canonical_string();
        out.append(subj.as_str());
        out
    }
}

// ---------------------------------------------------------------------------
// Parsing
// ---------------------------------------------------------------------------

/// Characters a namespace or relation name may hold: anything but the three
/// separators.
pub open spec fn name_char_ok(c: char) -> bool {
    c != ':' && c != '#' && c != '@'
}

/// A valid name: non-empty and free of separators.
pub open spec fn name_ok(x: Seq<char>) -> bool {
    x.len() > 0 && forall|i: int| 0 <= i < x.len() ==> name_char_ok(#[trigger] x[i])
}

/// The first position of `c` at or after `i` (the length if none).
pub open spec fn scan_char(s: Seq<char>, i: int, c: char) -> int
    decreases s.len() - i,
{
    if i < 0 || i >= s.len() {
        s.len() as int
    } else if s[i] == c {
        i
    } else {
        scan_char(s, i + 1, c)
    }
}

/// The subject text: a bare UUID is a direct identity; `ns:obj#rel` is a
/// subject set. The whole text must be consumed.
pub open spec fn spec_parse_subject(s: Seq<char>) -> Option<SubjectV> {
    let c1 = scan_char(s, 0, ':');
    if c1 >= s.len() {
        match spec_uuid_val(s) {
            Option::Some(id) => Some(SubjectV::Direct { id }),
            Option::None => None,
        }
    } else {
        let ns = s.subrange(0, c1);
        if !name_ok(ns) {
            None
        } else if s.len() - c1 < 38 {
            None
        } else {
            match spec_uuid_val(s.subrange(c1 + 1, c1 + 37)) {
                Option::None => None,
                Option::Some(obj) => {
                    if s[c1 + 37] != '#' {
                        None
                    } else {
                        let rel = s.subrange(c1 + 38, s.len() as int);
                        if name_ok(rel) {
                            Some(SubjectV::SubjectSet { namespace: ns, object: obj, relation: rel })
                        } else {
                            None
                        }
                    }
                },
            }
        }
    }
}

/// The canonical tuple text `namespace:object#relation@subject`, consumed
/// completely: trailing garbage makes the whole parse fail.
pub open spec fn spec_parse_tuple(s: Seq<char>) -> Option<TupleV> {
    let c1 = scan_char(s, 0, ':');
    if c1 >= s.len() {
        None
    } else {
        let ns = s.subrange(0, c1);
        if !name_ok(ns) {
            None
        } else if s.len() - c1 < 38 {
            None
        } else {
            match spec_uuid_val(s.subrange(c1 + 1, c1 + 37)) {
                Option::None => None,
                Option::Some(obj) => {
                    if s[c1 + 37] != '#' {
                        None
                    } else {
                        let a1 = scan_char(s, c1 + 38, '@');
                        if a1 >= s.len() {
                            None
                        } else {
                            let rel = s.subrange(c1 + 38, a1);
                            if !name_ok(rel) {
                                None
                            } else {
                                match spec_parse_subject(s.subrange(a1 + 1, s.len() as int)) {
                                    Option::None => None,
                                    Option::Some(subj) => Some(
                                        TupleV { namespace: ns, object: obj, relation: rel, subject: subj },
                                    ),
                                }
                            }
                        }
                    }
                },
            }
        }
    }
}

fn hex_val(c: char) -> (r: u128)
    ensures
        r == hex_char_val(c),
{
    if c == '0' {
        0
    } else if c == '1' {
        1
    } else if c == '2' {
        2
    } else if c == '3' {
        3
    } else if c == '4' {
        4
    } else if c == '5' {
        5
    } else if c == '6' {
        6
    } else if c == '7' {
        7
    } else if c == '8' {
        8
    } else if c == '9' {
        9
    } else if c == 'a' {
        10
    } else if c == 'b' {
        11
    } else if c == 'c' {
        12
    } else if c == 'd' {
        13
    } else if c == 'e' {
        14
    } else if c == 'f' {
        15
    } else {
        16
    }
}

/// Reads 36 characters of canonical UUID text starting at `a`.
#[verifier::loop_isolation(false)]
fn uuid_val_at(s: &str, a: usize, n: usize) -> (r: Option<u128>)
    requires
        n == s@.len(),
        a + 36 <= n,
    ensures
        r == spec_uuid_val(s@.subrange(a as int, a + 36)),
{
    let ghost t = s@.subrange(a as int, a + 36);
    let mut acc: u128 = 0;
    let mut k: usize = 0;
    while k < 36
        invariant
            k <= 36,
            spec_uuid_val_scan(t, 0, 0) == spec_uuid_val_scan(t, k as int, acc),
        decreases 36 - k,
    {
        let c = s.get_char(a + k);
        proof {
            assert(t[k as int] == s@[a + k]);
        }
        let hyphen = k == 8 || k == 13 || k == 18 || k == 23;
        if hyphen {
            if c != '-' {
                return None;
            }
        } else {
            let d = hex_val(c);
            if d >= 16 {
                return None;
            }
            acc = (acc << 4u128) | (d & 0xf);
        }
        k = k + 1;
    }
    Some(acc)
}

/// Whether every character of `s@.subrange(a, b)` may stand in a name.
#[verifier::loop_isolation(false)]
fn name_chars_ok(s: &str, a: usize, b: usize) -> (r: bool)
    requires
        a <= b <= s@.len(),
    ensures
        r == (b > a && name_ok(s@.subrange(a as int, b as int))),
{
    if a >= b {
        return false;
    }
    let mut k: usize = a;
    while k < b
        invariant
            a <= k <= b,
            forall|i: int| a <= i < k ==> name_char_ok(#[trigger] s@[i]),
        decreases b - k,
    {
        let c = s.get_char(k);
        if c == ':' || c == '#' || c == '@' {
            proof {
                assert(!name_char_ok(s@[k as int]));
                assert(s@.subrange(a as int, b as int)[k - a] == s@[k as int]);
            }
            return false;
        }
        k = k + 1;
    }
    proof {
        assert forall|i: int|
            0 <= i < s@.subrange(a as int, b as int).len() implies name_char_ok(
            #[trigger] s@.subrange(a as int, b as int)[i],
        ) by {
            assert(s@.subrange(a as int, b as int)[i] == s@[a + i]);
        }
    }
    true
}

/// The first position of `c` at or after `a`.
#[verifier::loop_isolation(false)]
fn find_sep(s: &str, a: usize, n: usize, c: char) -> (r: usize)
    requires
        n == s@.len(),
        a <= n,
    ensures
        r == scan_char(s@, a as int, c),
        a <= r <= n,
{
    let mut k: usize = a;
    while k < n
        invariant
            a <= k <= n,
            scan_char(s@, a as int, c) == scan_char(s@, k as int, c),
        decreases n - k,
    {
        if s.get_char(k) == c {
            return k;
        }
        k = k + 1;
    }
    k
}

/// Parses the subject part of the canonical form: a bare UUID or
/// `ns:obj#rel`, consuming the characters `[a, n)` completely.
#[verifier::loop_isolation(false)]
fn parse_subject_at(s: &str, a: usize, n: usize) -> (r: Option<Subject>)
    requires
        n == s@.len(),
        a <= n,
    ensures
        match r {
            Option::Some(subj) => spec_parse_subject(s@.subrange(a as int, n as int)) == Some(
                subject_view(subj),
            ),
            Option::None => spec_parse_subject(s@.subrange(a as int, n as int)) is None,
        },
{
    let ghost sub = s@.subrange(a as int, n as int);
    let c1 = find_sep(s, a, n, ':');
    proof {
        lemma_scan_char_offset(s@, a as int, n as int, ':');
        assert(scan_char(sub, 0, ':') == c1 - a);
    }
    if c1 >= n {
        // A bare UUID: a direct identity.
        if n - a != 36 {
            return None;
        }
        proof {
            assert(sub =~= s@.subrange(a as int, a + 36));
        }
        match uuid_val_at(s, a, n) {
            None => None,
            Some(id) => {
                let subj = Subject::Direct(crate::relation_tuple::SubjectId::new(
                    crate::relation_tuple::Uuid { value: id },
                ));
                Some(subj)
            },
        }
    } else {
        if !name_chars_ok(s, a, c1) {
            proof {
                assert(sub.subrange(0, c1 - a) =~= s@.subrange(a as int, c1 as int));
            }
            return None;
        }
        proof {
            assert(sub.subrange(0, c1 - a) =~= s@.subrange(a as int, c1 as int));
        }
        if n - c1 < 38 {
            return None;
        }
        let obj = match uuid_val_at(s, c1 + 1, n) {
            None => {
                proof {
                    assert(sub.subrange(c1 - a + 1, c1 - a + 37) =~= s@.subrange(
                        c1 + 1,
                        c1 + 37,
                    ));
                }
                return None;
            },
            Some(v) => {
                proof {
                    assert(sub.subrange(c1 - a + 1, c1 - a + 37) =~= s@.subrange(
                        c1 + 1,
                        c1 + 37,
                    ));
                }
                v
            },
        };
        if s.get_char(c1 + 37) != '#' {
            proof {
                assert(sub[c1 - a + 37] == s@[c1 + 37]);
            }
            return None;
        }
        proof {
            assert(sub[c1 - a + 37] == s@[c1 + 37]);
        }
        if !name_chars_ok(s, c1 + 38, n) {
            proof {
                assert(sub.subrange(c1 - a + 38, sub.len() as int) =~= s@.subrange(
                    c1 + 38,
                    n as int,
                ));
            }
            return None;
        }
        proof {
            assert(sub.subrange(c1 - a + 38, sub.len() as int) =~= s@.subrange(
                c1 + 38,
                n as int,
            ));
        }
        let ns = s.substring_char(a, c1).to_owned();
        let rel = s.substring_char(c1 + 38, n).to_owned();
        let subj = Subject::SubjectSet(crate::relation_tuple::SubjectSet {
            namespace: ns,
            object: crate::relation_tuple::Uuid { value: obj },
            relation: rel,
        });
        Some(subj)
    }
}

/// Scanning for a character commutes with taking a suffix.
proof fn lemma_scan_char_offset(s: Seq<char>, a: int, n: int, c: char)
    requires
        0 <= a <= n == s.len(),
    ensures
        forall|k: int|
            a <= k <= n ==> #[trigger] scan_char(s, k, c) - a == scan_char(
                s.subrange(a, n),
                k - a,
                c,
            ),
    decreases n - a,
{
    let sub = s.subrange(a, n);
    assert forall|k: int| a <= k <= n implies #[trigger] scan_char(s, k, c) - a == scan_char(
        sub,
        k - a,
        c,
    ) by {
        lemma_scan_char_offset_one(s, a, n, c, k);
    }
}

proof fn lemma_scan_char_offset_one(s: Seq<char>, a: int, n: int, c: char, k: int)
    requires
        0 <= a <= k <= n == s.len(),
    ensures
        scan_char(s, k, c) - a == scan_char(s.subrange(a, n), k - a, c),
    decreases n - k,
{
    let sub = s.subrange(a, n);
    if k >= n {
        assert(scan_char(s, k, c) == n);
        assert(scan_char(sub, k - a, c) == sub.len());
    } else {
        assert(sub[k - a] == s[k]);
        if s[k] != c {
            lemma_scan_char_offset_one(s, a, n, c, k + 1);
        }
    }
}

/// Parses the canonical tuple text `namespace:object#relation@subject`.
/// Total: any input that is not exactly one canonical tuple, trailing
/// garbage included, gives `None`. The accepted value is exactly what the
/// functional model `spec_parse_tuple` assigns to the text.
pub fn parse_tuple(s: &str) -> (r: Option<RelationTuple>)
    ensures
        match r {
            Option::Some(t) => spec_parse_tuple(s@) == Some(tuple_view(t)),
            Option::None => spec_parse_tuple(s@) is None,
        },
{
    let n = s.unicode_len();
    let c1 = find_sep(s, 0, n, ':');
    if c1 >= n {
        return None;
    }
    if !name_chars_ok(s, 0, c1) {
        return None;
    }
    if n - c1 < 38 {
        return None;
    }
    let obj = match uuid_val_at(s, c1 + 1, n) {
        None => {
            return None;
        },
        Some(v) => v,
    };
    if s.get_char(c1 + 37) != '#' {
        return None;
    }
    let a1 = find_sep(s, c1 + 38, n, '@');
    if a1 >= n {
        return None;
    }
    if !name_chars_ok(s, c1 + 38, a1) {
        return None;
    }
    let subj = match parse_subject_at(s, a1 + 1, n) {
        None => {
            proof {
                assert(s@.subrange(a1 + 1, s@.len() as int) =~= s@.subrange(a1 + 1, n as int));
            }
            return None;
        },
        Some(x) => x,
    };
    proof {
        assert(s@.subrange(a1 + 1, s@.len() as int) =~= s@.subrange(a1 + 1, n as int));
    }
    let namespace = s.substring_char(0, c1).to_owned();
    let relation = s.substring_char(c1 + 38, a1).to_owned();
    let t = RelationTuple {
        namespace,
        object: crate::relation_tuple::Uuid { value: obj },
        relation,
        subject: subj,
    };
    proof {
        assert(tuple_view(t) =~~= spec_parse_tuple(s@)->0);
    }
    Some(t)
}

} // verus!
