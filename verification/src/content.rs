//! The content model: the tagged variant a DNS record carries, with
//! type-specific validation (dotted-quad IPv4 address, non-empty
//! canonical-name target) and rendering to a display value and type label.

use vstd::prelude::*;

use crate::text::{all_digits, dec_digits, dec_value, is_digit};

verus! {

/// The four octets of an IPv4 address, most significant first.
#[derive(Clone, Copy, PartialEq, Eq, Structural, Debug)]
pub struct Ipv4Octets {
    pub a: u8,
    pub b: u8,
    pub c: u8,
    pub d: u8,
}

/// The typed payload of a DNS record.
///
/// Record types beyond address and canonical-name are carried as `Other`:
/// they stay addressable in a catalog (so they can still be deleted by
/// name) but render as nothing and are skipped from listings.
#[derive(Debug)]
pub enum ContentVariant {
    /// An address record, holding the four octets of the IPv4 address.
    Address { octets: Ipv4Octets },
    /// A canonical-name record, holding the non-empty target name.
    CanonicalName { target: String },
    /// Any record type this tool does not render or build.
    Other,
}

/// The mathematical shape of a `ContentVariant`.
pub enum ContentView {
    Address { octets: Ipv4Octets },
    CanonicalName { target: Seq<char> },
    Other,
}

impl View for ContentVariant {
    type V = ContentView;

    open spec fn view(&self) -> ContentView {
        match self {
            ContentVariant::Address { octets } => ContentView::Address { octets: *octets },
            ContentVariant::CanonicalName { target } => ContentView::CanonicalName {
                target: target@,
            },
            ContentVariant::Other => ContentView::Other,
        }
    }
}

/// A validation failure when building record content from operator input.
#[derive(Clone, Copy, PartialEq, Eq, Structural, Debug)]
pub enum ContentError {
    /// The input was not a well-formed dotted-quad IPv4 address.
    InvalidAddress,
    /// The canonical-name target was empty.
    InvalidTarget,
}

/// The record types this tool can build content for.
#[derive(Clone, Copy, PartialEq, Eq, Structural, Debug)]
pub enum RecordKind {
    A,
    Cname,
}

/// Ten to the power `n`.
pub open spec fn pow10(n: nat) -> int
    decreases n,
{
    if n == 0 {
        1
    } else {
        10 * pow10((n - 1) as nat)
    }
}

/// The value of a digit string is non-negative and below ten to its length.
pub proof fn lemma_dec_value_bound(s: Seq<char>)
    requires
        all_digits(s),
    ensures
        0 <= dec_value(s) < pow10(s.len()),
    decreases s.len(),
{
    if s.len() > 0 {
        assert(all_digits(s.drop_last()));
        lemma_dec_value_bound(s.drop_last());
    }
}

/// One textual octet of a dotted quad: one to three digits, no leading
/// zero (except `"0"` itself), value at most 255.
pub open spec fn is_octet_text(s: Seq<char>) -> bool {
    &&& 1 <= s.len() <= 3
    &&& all_digits(s)
    &&& (s.len() > 1 ==> s[0] != '0')
    &&& dec_value(s) <= 255
}

/// The characters `lo..hi` of `s` parsed as one textual octet.
fn parse_octet(s: &str, lo: usize, hi: usize) -> (r: Option<u8>)
    requires
        lo <= hi <= s@.len(),
    ensures
        r is Some <==> is_octet_text(s@.subrange(lo as int, hi as int)),
        r matches Some(v) ==> v as int == dec_value(s@.subrange(lo as int, hi as int)),
{
    let ghost seg = s@.subrange(lo as int, hi as int);
    let n = hi - lo;
    if n == 0 || n > 3 {
        return None;
    }
    if n > 1 && s.get_char(lo) == '0' {
        assert(seg[0] == '0');
        return None;
    }
    let mut acc: u32 = 0;
    let mut i = lo;
    while i < hi
        invariant
            lo <= i <= hi <= s@.len(),
            hi - lo <= 3,
            seg == s@.subrange(lo as int, hi as int),
            all_digits(s@.subrange(lo as int, i as int)),
            acc as int == dec_value(s@.subrange(lo as int, i as int)),
        decreases hi - i,
    {
        let ghost pre = s@.subrange(lo as int, i as int);
        let c = s.get_char(i);
        let v = c as u32;
        if v < 48 || v > 57 {
            assert(seg[i - lo] == c);
            assert(!is_digit(c));
            return None;
        }
        proof {
            lemma_dec_value_bound(pre);
            assert(pre.len() <= 2);
            assert(pow10(0) == 1);
            assert(pow10(1) == 10);
            assert(pow10(2) == 100);
            assert(acc <= 99);
            assert(s@.subrange(lo as int, i + 1).drop_last() =~= pre);
            assert(s@.subrange(lo as int, i + 1).last() == s@[i as int]);
            assert(all_digits(s@.subrange(lo as int, i + 1)));
        }
        acc = acc * 10 + (v - 48);
        i = i + 1;
    }
    assert(s@.subrange(lo as int, i as int) =~= seg);
    if acc > 255 {
        None
    } else {
        Some(acc as u8)
    }
}

/// `s` is a dotted quad whose three dots stand at `i < j < k`, with a
/// textual octet between each pair of neighbouring dots and at both ends.
pub open spec fn is_dotted_quad_at(s: Seq<char>, i: int, j: int, k: int) -> bool {
    &&& 0 <= i < j < k < s.len()
    &&& s[i] == '.'
    &&& s[j] == '.'
    &&& s[k] == '.'
    &&& is_octet_text(s.subrange(0, i))
    &&& is_octet_text(s.subrange(i + 1, j))
    &&& is_octet_text(s.subrange(j + 1, k))
    &&& is_octet_text(s.subrange(k + 1, s.len() as int))
}

/// `s` is a well-formed dotted-quad IPv4 address.
pub open spec fn is_ipv4_text(s: Seq<char>) -> bool {
    exists|i: int, j: int, k: int| is_dotted_quad_at(s, i, j, k)
}

/// `o` holds the four octet values written in the dotted quad `s`.
pub open spec fn octets_of_text(s: Seq<char>, o: Ipv4Octets) -> bool {
    exists|i: int, j: int, k: int|
        {
            &&& is_dotted_quad_at(s, i, j, k)
            &&& o.a as int == dec_value(s.subrange(0, i))
            &&& o.b as int == dec_value(s.subrange(i + 1, j))
            &&& o.c as int == dec_value(s.subrange(j + 1, k))
            &&& o.d as int == dec_value(s.subrange(k + 1, s.len() as int))
        }
}

/// In a dotted quad with dots at `i`, `j`, `k`, no other position holds a
/// dot: the four segments around them are made of digits alone.
proof fn lemma_quad_dots_only(s: Seq<char>, i: int, j: int, k: int, p: int)
    requires
        is_dotted_quad_at(s, i, j, k),
        0 <= p < s.len(),
        s[p] == '.',
    ensures
        p == i || p == j || p == k,
{
    if p < i {
        assert(s.subrange(0, i)[p] == s[p]);
        assert(is_digit(s.subrange(0, i)[p]));
    } else if i < p < j {
        assert(s.subrange(i + 1, j)[p - (i + 1)] == s[p]);
        assert(is_digit(s.subrange(i + 1, j)[p - (i + 1)]));
    } else if j < p < k {
        assert(s.subrange(j + 1, k)[p - (j + 1)] == s[p]);
        assert(is_digit(s.subrange(j + 1, k)[p - (j + 1)]));
    } else if k < p {
        assert(s.subrange(k + 1, s.len() as int)[p - (k + 1)] == s[p]);
        assert(is_digit(s.subrange(k + 1, s.len() as int)[p - (k + 1)]));
    }
}

/// A strictly increasing list of exactly the dot positions of `s` must be
/// `[i, j, k]` whenever `s` is a dotted quad with dots at `i < j < k`.
proof fn lemma_dots_match_quad(s: Seq<char>, dots: Seq<usize>, i: int, j: int, k: int)
    requires
        forall|t: int|
            0 <= t < dots.len() ==> (#[trigger] dots[t]) < s.len() && s[dots[t] as int] == '.',
        forall|t1: int, t2: int| 0 <= t1 < t2 < dots.len() ==> dots[t1] < dots[t2],
        forall|p: int|
            0 <= p < s.len() && #[trigger] s[p] == '.' ==> exists|t: int|
                0 <= t < dots.len() && dots[t] == p,
        is_dotted_quad_at(s, i, j, k),
    ensures
        dots.len() == 3,
        dots[0] == i,
        dots[1] == j,
        dots[2] == k,
{
    assert(s[i] == '.');
    assert(s[j] == '.');
    assert(s[k] == '.');
    let ti = choose|t: int| 0 <= t < dots.len() && dots[t] == i;
    let tj = choose|t: int| 0 <= t < dots.len() && dots[t] == j;
    let tk = choose|t: int| 0 <= t < dots.len() && dots[t] == k;
    assert forall|t: int| 0 <= t < dots.len() implies (#[trigger] dots[t]) == i || dots[t] == j
        || dots[t] == k by {
        lemma_quad_dots_only(s, i, j, k, dots[t] as int);
    }
    assert(ti != tj && tj != tk && ti != tk);
    assert(dots.len() >= 3);
    if dots.len() >= 4 {
        assert(dots[0] < dots[1]);
        assert(dots[1] < dots[2]);
        assert(dots[2] < dots[3]);
        assert(false);
    }
    assert(dots[0] < dots[1]);
    assert(dots[1] < dots[2]);
}

/// Parse `s` as a dotted-quad IPv4 address.
///
/// Returns the four octet values exactly when `s` is well formed: four
/// decimal runs of one to three digits, each without a leading zero and at
/// most 255, separated by single dots.
pub fn parse_ipv4(s: &str) -> (r: Option<Ipv4Octets>)
    ensures
        r is Some <==> is_ipv4_text(s@),
        r matches Some(o) ==> octets_of_text(s@, o),
{
    let len = s.unicode_len();
    let mut dots: Vec<usize> = Vec::new();
    let mut idx: usize = 0;
    while idx < len
        invariant
            idx <= len,
            len == s@.len(),
            forall|t: int|
                0 <= t < dots@.len() ==> (#[trigger] dots@[t]) < idx && s@[dots@[t] as int] == '.',
            forall|t1: int, t2: int| 0 <= t1 < t2 < dots@.len() ==> dots@[t1] < dots@[t2],
            forall|p: int|
                0 <= p < idx && #[trigger] s@[p] == '.' ==> exists|t: int|
                    0 <= t < dots@.len() && dots@[t] == p,
        decreases len - idx,
    {
        let ghost pre_dots = dots@;
        let c = s.get_char(idx);
        if c == '.' {
            dots.push(idx);
            assert(dots@[dots@.len() - 1] == idx);
        }
        assert forall|p: int| 0 <= p < idx + 1 && #[trigger] s@[p] == '.' implies exists|t: int|
            0 <= t < dots@.len() && dots@[t] == p by {
            if p == idx {
                assert(dots@[dots@.len() - 1] == p);
            } else {
                let t = choose|t: int| 0 <= t < pre_dots.len() && pre_dots[t] == p;
                assert(dots@[t] == p);
            }
        }
        idx = idx + 1;
    }
    if dots.len() != 3 {
        proof {
            if is_ipv4_text(s@) {
                let (i, j, k) = choose|i: int, j: int, k: int| is_dotted_quad_at(s@, i, j, k);
                lemma_dots_match_quad(s@, dots@, i, j, k);
            }
        }
        return None;
    }
    let d0 = dots[0];
    let d1 = dots[1];
    let d2 = dots[2];
    assert(d0 < d1 && d1 < d2 && d2 < len);
    assert(s@[d0 as int] == '.' && s@[d1 as int] == '.' && s@[d2 as int] == '.');
    let r0 = parse_octet(s, 0, d0);
    let r1 = parse_octet(s, d0 + 1, d1);
    let r2 = parse_octet(s, d1 + 1, d2);
    let r3 = parse_octet(s, d2 + 1, len);
    if r0.is_some() && r1.is_some() && r2.is_some() && r3.is_some() {
        let o = Ipv4Octets {
            a: r0.unwrap(),
            b: r1.unwrap(),
            c: r2.unwrap(),
            d: r3.unwrap(),
        };
        proof {
            assert(is_dotted_quad_at(s@, d0 as int, d1 as int, d2 as int));
            assert(octets_of_text(s@, o));
        }
        Some(o)
    } else {
        proof {
            assert(!is_dotted_quad_at(s@, d0 as int, d1 as int, d2 as int));
            assert forall|i: int, j: int, k: int| !(#[trigger] is_dotted_quad_at(
                s@,
                i,
                j,
                k,
            )) by {
                if is_dotted_quad_at(s@, i, j, k) {
                    lemma_dots_match_quad(s@, dots@, i, j, k);
                }
            }
        }
        None
    }
}

/// Build record content of the given kind from raw operator input.
///
/// For `A`, the input must be a dotted-quad IPv4 address; the variant then
/// stores the four octet values. For `Cname`, any non-empty input is taken
/// as the target as-is. The matching validation error comes back otherwise.
pub fn build_content(kind: RecordKind, raw: &str) -> (r: Result<ContentVariant, ContentError>)
    ensures
        kind == RecordKind::A ==> {
            &&& r is Ok <==> is_ipv4_text(raw@)
            &&& (r matches Ok(c) ==> exists|o: Ipv4Octets|
                c@ == (ContentView::Address { octets: o }) && octets_of_text(raw@, o))
            &&& (r is Err ==> r == Result::<ContentVariant, ContentError>::Err(
                ContentError::InvalidAddress,
            ))
        },
        kind == RecordKind::Cname ==> {
            &&& r is Ok <==> raw@.len() > 0
            &&& (r matches Ok(c) ==> c@ == (ContentView::CanonicalName { target: raw@ }))
            &&& (r is Err ==> r == Result::<ContentVariant, ContentError>::Err(
                ContentError::InvalidTarget,
            ))
        },
{
    match kind {
        RecordKind::A => match parse_ipv4(raw) {
            Some(octets) => Ok(ContentVariant::Address { octets }),
            None => Err(ContentError::InvalidAddress),
        },
        RecordKind::Cname => {
            if raw.unicode_len() == 0 {
                Err(ContentError::InvalidTarget)
            } else {
                Ok(ContentVariant::CanonicalName { target: raw.to_owned() })
            }
        },
    }
}

/// The dotted-quad text of the four octets `o`.
pub open spec fn ipv4_text(o: Ipv4Octets) -> Seq<char> {
    dec_digits(o.a as int) + seq!['.'] + dec_digits(o.b as int) + seq!['.'] + dec_digits(
        o.c as int,
    ) + seq!['.'] + dec_digits(o.d as int)
}

/// The dotted-quad string of the four octets `o`.
pub fn ipv4_string(o: &Ipv4Octets) -> (r: String)
    ensures
        r@ == ipv4_text(*o),
{
    let dot = ".";
    let r = crate::text::u64_to_string(o.a as u64).concat(dot).concat(
        crate::text::u64_to_string(o.b as u64).as_str(),
    ).concat(dot).concat(crate::text::u64_to_string(o.c as u64).as_str()).concat(dot).concat(
        crate::text::u64_to_string(o.d as u64).as_str(),
    );
    proof {
        reveal_strlit(".");
        assert(dot@ =~= seq!['.']);
        assert(r@ =~= ipv4_text(*o));
    }
    r
}

/// Render content for presentation: the display value and the type label.
///
/// Address records render as their dotted quad under the label `"A"`;
/// canonical-name records as their target under `"CNAME"`. Content of any
/// other kind yields nothing and is skipped from listings.
pub fn render(content: &ContentVariant) -> (r: Option<(String, String)>)
    ensures
        match content@ {
            ContentView::Address { octets } => r matches Some(p) && p.0@ == ipv4_text(octets)
                && p.1@ == "A"@,
            ContentView::CanonicalName { target } => r matches Some(p) && p.0@ == target
                && p.1@ == "CNAME"@,
            ContentView::Other => r is None,
        },
{
    match content {
        ContentVariant::Address { octets } => Some(
            (ipv4_string(octets), String::from_str("A")),
        ),
        ContentVariant::CanonicalName { target } => Some(
            (target.clone(), String::from_str("CNAME")),
        ),
        ContentVariant::Other => None,
    }
}

} // verus!
