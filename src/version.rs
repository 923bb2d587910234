use vstd::prelude::*;

use std::cmp::Ordering;

use crate::number::{parse_u32, parse_u32_spec, push_signed_decimal, signed_decimal};
use crate::text::{chars_of, lemma_split_nonempty, split_on, split_spans};

verus! {

/// The numbers among `pieces`, in order; pieces that are not numbers are left out.
pub open spec fn numeric_pieces(pieces: Seq<Seq<char>>) -> Seq<u32>
    decreases pieces.len(),
{
    if pieces.len() == 0 {
        seq![]
    } else {
        let rest = numeric_pieces(pieces.drop_last());
        match parse_u32_spec(pieces.last()) {
            Some(n) => rest.push(n),
            None => rest,
        }
    }
}

/// The components of a dotted version string.
pub open spec fn version_numbers(v: Seq<char>) -> Seq<u32> {
    numeric_pieces(split_on(v, '.'))
}

/// Lexicographic order of component lists; a proper prefix comes first.
pub open spec fn lex_cmp(a: Seq<u32>, b: Seq<u32>) -> Ordering
    decreases a.len(),
{
    if a.len() == 0 && b.len() == 0 {
        Ordering::Equal
    } else if a.len() == 0 {
        Ordering::Less
    } else if b.len() == 0 {
        Ordering::Greater
    } else if a[0] < b[0] {
        Ordering::Less
    } else if a[0] > b[0] {
        Ordering::Greater
    } else {
        lex_cmp(a.drop_first(), b.drop_first())
    }
}

/// The three addressing schemes under which the window manager has exposed a
/// loaded script on the message bus.
#[derive(Clone, Copy, Debug, PartialEq, Eq, Structural)]
pub enum AddressingEra {
    PreLegacy,
    Legacy,
    Modern,
}

pub open spec fn legacy_first() -> Seq<u32> {
    seq![5u32, 21u32, 90u32]
}

pub open spec fn legacy_last() -> Seq<u32> {
    seq![5u32, 27u32, 79u32]
}

pub open spec fn modern_floor() -> Seq<u32> {
    seq![5u32, 27u32, 80u32]
}

/// The era of a version with components `v`: legacy from 5.21.90 through 5.27.79,
/// modern from 5.27.80 on, and the earliest scheme otherwise.
pub open spec fn era_of(v: Seq<u32>) -> AddressingEra {
    if lex_cmp(legacy_first(), v) != Ordering::Greater && lex_cmp(v, legacy_last()) != Ordering::Greater {
        AddressingEra::Legacy
    } else if lex_cmp(v, modern_floor()) != Ordering::Less {
        AddressingEra::Modern
    } else {
        AddressingEra::PreLegacy
    }
}

/// The message-bus object path and interface of a loaded script.
pub struct ScriptAddress {
    pub path: String,
    pub interface: String,
}

pub open spec fn script_interface(era: AddressingEra) -> Seq<char> {
    match era {
        AddressingEra::PreLegacy => "org.kde.kwin.Scripting"@,
        _ => "org.kde.kwin.Script"@,
    }
}

pub open spec fn script_path(era: AddressingEra, id: i32) -> Seq<char> {
    match era {
        AddressingEra::Modern => "/Scripting/Script"@ + signed_decimal(id as int),
        _ => "/"@ + signed_decimal(id as int),
    }
}

/// The components of the dotted version `v`; components that are not numbers are
/// dropped.
pub fn parse_version(v: &str) -> (r: Vec<u32>)
    ensures
        r@ == version_numbers(v@),
{
    let cs = chars_of(v);
    let spans = split_spans(&cs, '.');
    let ghost pieces = split_on(cs@, '.');
    let mut r: Vec<u32> = Vec::new();
    let mut k: usize = 0;
    while k < spans.len()
        invariant
            cs@ == v@,
            pieces == split_on(cs@, '.'),
            spans@.len() == pieces.len(),
            forall|q: int| #![trigger spans[q]] 0 <= q < spans.len() ==> spans[q].0 <= spans[q].1 <= cs.len(),
            forall|q: int|
                0 <= q < spans.len() ==> #[trigger] cs@.subrange(spans[q].0 as int, spans[q].1 as int)
                    == pieces[q],
            k <= spans.len(),
            r@ == numeric_pieces(pieces.take(k as int)),
        decreases spans.len() - k,
    {
        let (lo, hi) = spans[k];
        let p = parse_u32(&cs, lo, hi);
        assert(pieces.take(k + 1).drop_last() =~= pieces.take(k as int));
        assert(cs@.subrange(spans[k as int].0 as int, spans[k as int].1 as int) == pieces[k as int]);
        match p {
            Some(n) => r.push(n),
            None => {},
        }
        k = k + 1;
    }
    assert(pieces.take(k as int) =~= pieces);
    r
}

/// Compares two component lists lexicographically.
pub fn compare_versions(a: &Vec<u32>, b: &Vec<u32>) -> (r: Ordering)
    ensures
        r == lex_cmp(a@, b@),
{
    let mut i: usize = 0;
    assert(a@.skip(0) =~= a@);
    assert(b@.skip(0) =~= b@);
    while i < a.len() && i < b.len()
        invariant
            i <= a.len(),
            i <= b.len(),
            lex_cmp(a@, b@) == lex_cmp(a@.skip(i as int), b@.skip(i as int)),
        decreases a.len() - i,
    {
        if a[i] < b[i] {
            return Ordering::Less;
        }
        if a[i] > b[i] {
            return Ordering::Greater;
        }
        assert(a@.skip(i as int).drop_first() =~= a@.skip(i + 1));
        assert(b@.skip(i as int).drop_first() =~= b@.skip(i + 1));
        i = i + 1;
    }
    if i == a.len() && i == b.len() {
        Ordering::Equal
    } else if i == a.len() {
        Ordering::Less
    } else {
        Ordering::Greater
    }
}

/// Compares two dotted version strings component by component.
pub fn ver_cmp(a: &str, b: &str) -> (r: Ordering)
    ensures
        r == lex_cmp(version_numbers(a@), version_numbers(b@)),
{
    let va = parse_version(a);
    let vb = parse_version(b);
    compare_versions(&va, &vb)
}

/// Whether `actual` lies between `min` and `max`, both included.
pub fn ver_between(min: &str, actual: &str, max: &str) -> (r: bool)
    ensures
        r == (lex_cmp(version_numbers(min@), version_numbers(actual@)) != Ordering::Greater
            && lex_cmp(version_numbers(actual@), version_numbers(max@)) != Ordering::Greater),
{
    let lo = ver_cmp(min, actual);
    let hi = ver_cmp(actual, max);
    !matches!(lo, Ordering::Greater) && !matches!(hi, Ordering::Greater)
}

/// Whether version `a` comes strictly before version `b`.
pub fn ver_lt(a: &str, b: &str) -> (r: bool)
    ensures
        r == (lex_cmp(version_numbers(a@), version_numbers(b@)) == Ordering::Less),
{
    matches!(ver_cmp(a, b), Ordering::Less)
}

/// The addressing era of the window manager whose version string is `version`.
pub fn classify(version: &str) -> (r: AddressingEra)
    ensures
        r == era_of(version_numbers(version@)),
{
    let v = parse_version(version);
    let first = vec![5u32, 21u32, 90u32];
    let last = vec![5u32, 27u32, 79u32];
    let floor = vec![5u32, 27u32, 80u32];
    assert(first@ =~= legacy_first());
    assert(last@ =~= legacy_last());
    assert(floor@ =~= modern_floor());
    let lo = compare_versions(&first, &v);
    let hi = compare_versions(&v, &last);
    if !matches!(lo, Ordering::Greater) && !matches!(hi, Ordering::Greater) {
        AddressingEra::Legacy
    } else if !matches!(compare_versions(&v, &floor), Ordering::Less) {
        AddressingEra::Modern
    } else {
        AddressingEra::PreLegacy
    }
}

/// Where a script loaded under the registration number `id` is addressed in `era`.
pub fn script_address(era: AddressingEra, id: i32) -> (r: ScriptAddress)
    ensures
        r.interface@ == script_interface(era),
        r.path@ == script_path(era, id),
{
    let interface = match era {
        AddressingEra::PreLegacy => String::from_str("org.kde.kwin.Scripting"),
        _ => String::from_str("org.kde.kwin.Script"),
    };
    let mut path = match era {
        AddressingEra::Modern => String::from_str("/Scripting/Script"),
        _ => String::from_str("/"),
    };
    push_signed_decimal(&mut path, id);
    ScriptAddress { path, interface }
}

/// The leading component of a dotted version string, if it is a number.
pub fn major_version(v: &str) -> (r: Option<u32>)
    ensures
        r == parse_u32_spec(split_on(v@, '.')[0]),
{
    let cs = chars_of(v);
    let spans = split_spans(&cs, '.');
    proof {
        lemma_split_nonempty(cs@, '.');
    }
    let (lo, hi) = spans[0];
    parse_u32(&cs, lo, hi)
}

} // verus!
