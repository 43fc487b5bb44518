use vstd::prelude::*;
use vstd::string::{StringExecFns, StrSliceExecFns};
use crate::text::clone_bytes;

verus! {

/// One rendered page: premultiplied RGBA pixels, row-major, four bytes per
/// pixel.
pub struct Page {
    pub width: u32,
    pub height: u32,
    pub data: Vec<u8>,
}

impl Page {
    /// The pixel buffer holds exactly width x height pixels.
    pub open spec fn wf(self) -> bool {
        self.data@.len() == self.width as nat * self.height as nat * 4
    }

    /// The page reduced to plain values: dimensions and pixel bytes.
    pub open spec fn view_tuple(self) -> (u32, u32, Seq<u8>) {
        (self.width, self.height, self.data@)
    }
}

/// Whether the character is a decimal digit.
pub open spec fn is_digit(c: char) -> bool {
    '0' as int <= c as int <= '9' as int
}

/// The numeric value of a digit character.
pub open spec fn digit_val(c: char) -> int {
    c as int - '0' as int
}

/// The digit character of a value below ten.
pub open spec fn digit_char(d: int) -> char {
    if d == 0 {
        '0'
    } else if d == 1 {
        '1'
    } else if d == 2 {
        '2'
    } else if d == 3 {
        '3'
    } else if d == 4 {
        '4'
    } else if d == 5 {
        '5'
    } else if d == 6 {
        '6'
    } else if d == 7 {
        '7'
    } else if d == 8 {
        '8'
    } else {
        '9'
    }
}

/// The decimal digit string of a nonnegative number, most significant digit
/// first, without leading zeros (zero itself is "0").
pub open spec fn dec_digits(n: int) -> Seq<char>
    recommends
        n >= 0,
    decreases n,
{
    if n < 10 {
        seq![digit_char(n)]
    } else {
        dec_digits(n / 10).push(digit_char(n % 10))
    }
}

/// The number a digit string denotes.
pub open spec fn dec_value(s: Seq<char>) -> int
    decreases s.len(),
{
    if s.len() == 0 {
        0
    } else {
        dec_value(s.drop_last()) * 10 + digit_val(s.last())
    }
}

/// The decimal digit string of a number reads back as that number, is never
/// empty, and consists of digits alone.
pub proof fn lemma_dec_digits_value(n: int)
    requires
        n >= 0,
    ensures
        dec_value(dec_digits(n)) == n,
        dec_digits(n).len() >= 1,
        forall|i: int| 0 <= i < dec_digits(n).len() ==> is_digit(#[trigger] dec_digits(n)[i]),
    decreases n,
{
    if n < 10 {
        assert(dec_digits(n) == seq![digit_char(n)]);
        assert(dec_digits(n).drop_last() =~= Seq::<char>::empty());
        assert(dec_value(Seq::<char>::empty()) == 0);
        assert(dec_value(dec_digits(n)) == digit_val(digit_char(n)));
    } else {
        lemma_dec_digits_value(n / 10);
        let pre = dec_digits(n / 10);
        let d = digit_char(n % 10);
        assert(dec_digits(n) == pre.push(d));
        assert(pre.push(d).drop_last() =~= pre);
        assert(pre.push(d).last() == d);
        assert(dec_value(dec_digits(n)) == dec_value(pre) * 10 + digit_val(d));
        assert(digit_val(d) == n % 10);
        assert(n / 10 * 10 + n % 10 == n);
        assert forall|i: int| 0 <= i < dec_digits(n).len() implies is_digit(
            #[trigger] dec_digits(n)[i],
        ) by {
            if i < pre.len() {
                assert(dec_digits(n)[i] == pre[i]);
            } else {
                assert(dec_digits(n)[i] == d);
            }
        }
    }
}

/// The digit string of one digit value.
fn digit_str(d: u64) -> (r: &'static str)
    requires
        d < 10,
    ensures
        r@ == seq![digit_char(d as int)],
{
    proof {
        reveal_strlit("0");
        reveal_strlit("1");
        reveal_strlit("2");
        reveal_strlit("3");
        reveal_strlit("4");
        reveal_strlit("5");
        reveal_strlit("6");
        reveal_strlit("7");
        reveal_strlit("8");
        reveal_strlit("9");
    }
    let r = match d {
        0 => "0",
        1 => "1",
        2 => "2",
        3 => "3",
        4 => "4",
        5 => "5",
        6 => "6",
        7 => "7",
        8 => "8",
        _ => "9",
    };
    proof {
        assert(r@ =~= seq![digit_char(d as int)]);
    }
    r
}

/// Render a number in decimal.
pub fn u64_to_dec(n: u64) -> (s: String)
    ensures
        s@ == dec_digits(n as int),
    decreases n,
{
    if n < 10 {
        let mut s = String::new();
        s.append(digit_str(n));
        proof {
            assert(s@ =~= dec_digits(n as int));
        }
        s
    } else {
        let mut s = u64_to_dec(n / 10);
        s.append(digit_str(n % 10));
        proof {
            assert(s@ =~= dec_digits(n as int));
        }
        s
    }
}

/// The end of the run of digits that starts at position `p`.
pub open spec fn digits_end(s: Seq<char>, p: int) -> int
    recommends
        0 <= p <= s.len(),
    decreases s.len() - p,
{
    if p < s.len() && is_digit(s[p]) {
        digits_end(s, p + 1)
    } else {
        p
    }
}

/// The digit run from `p` ends exactly at the first non-digit position.
pub proof fn lemma_digits_end_is(s: Seq<char>, p: int, q: int)
    requires
        0 <= p <= q <= s.len(),
        forall|i: int| p <= i < q ==> is_digit(#[trigger] s[i]),
        q == s.len() || !is_digit(s[q]),
    ensures
        digits_end(s, p) == q,
    decreases q - p,
{
    if p < q {
        lemma_digits_end_is(s, p + 1, q);
    }
}

/// True if `lit` occurs in `s` starting at position `p`.
pub open spec fn has_prefix_at(s: Seq<char>, p: int, lit: Seq<char>) -> bool {
    0 <= p && p + lit.len() <= s.len() && s.subrange(p, p + lit.len()) == lit
}

/// What parsing a header line yields: the page count and the width and
/// height of the first page, provided the line is exactly the header shape
/// with three numbers that fit.
pub open spec fn parse_header_spec(s: Seq<char>) -> Option<(u32, u32, u32)> {
    let l1 = "{\"page_num\": "@;
    let l2 = ", \"width\": "@;
    let l3 = ", \"height\": "@;
    if !has_prefix_at(s, 0, l1) {
        None
    } else {
        let p1 = l1.len() as int;
        let q1 = digits_end(s, p1);
        let n = dec_value(s.subrange(p1, q1));
        if q1 == p1 || n > u32::MAX {
            None
        } else if !has_prefix_at(s, q1, l2) {
            None
        } else {
            let p2 = q1 + l2.len();
            let q2 = digits_end(s, p2);
            let w = dec_value(s.subrange(p2, q2));
            if q2 == p2 || w > u32::MAX {
                None
            } else if !has_prefix_at(s, q2, l3) {
                None
            } else {
                let p3 = q2 + l3.len();
                let q3 = digits_end(s, p3);
                let h = dec_value(s.subrange(p3, q3));
                if q3 == p3 || h > u32::MAX {
                    None
                } else if q3 + 1 == s.len() && s[q3] == '}' {
                    Some((n as u32, w as u32, h as u32))
                } else {
                    None
                }
            }
        }
    }
}

/// The header text for a page count and the dimensions of the first page.
pub open spec fn header_spec(n: int, w: int, h: int) -> Seq<char> {
    "{\"page_num\": "@ + dec_digits(n) + ", \"width\": "@ + dec_digits(w) + ", \"height\": "@
        + dec_digits(h) + "}"@
}

/// Render the header line.
pub fn encode_header(n: u32, w: u32, h: u32) -> (s: String)
    ensures
        s@ == header_spec(n as int, w as int, h as int),
{
    let s = String::from_str("{\"page_num\": ").concat(u64_to_dec(n as u64).as_str()).concat(
        ", \"width\": ",
    ).concat(u64_to_dec(w as u64).as_str()).concat(", \"height\": ").concat(
        u64_to_dec(h as u64).as_str(),
    ).concat("}");
    proof {
        assert(s@ =~= header_spec(n as int, w as int, h as int));
    }
    s
}

/// Whether `lit` occurs in `s` at position `p`.
fn match_lit(s: &str, p: usize, lit: &str) -> (r: bool)
    requires
        p <= s@.len(),
    ensures
        r == has_prefix_at(s@, p as int, lit@),
{
    let sl = s.unicode_len();
    let ll = lit.unicode_len();
    if sl - p < ll {
        return false;
    }
    let mut k: usize = 0;
    while k < ll
        invariant
            k <= ll,
            ll == lit@.len(),
            sl == s@.len(),
            p + ll <= sl,
            forall|j: int| 0 <= j < k ==> s@[p + j] == lit@[j],
        decreases ll - k,
    {
        if s.get_char(p + k) != lit.get_char(k) {
            proof {
                assert(s@.subrange(p as int, p + lit@.len() as int)[k as int] == s@[p + k]);
            }
            return false;
        }
        k += 1;
    }
    proof {
        assert(s@.subrange(p as int, p + lit@.len() as int) =~= lit@);
    }
    true
}

/// Scan the digit run starting at `p`: where it ends, and the number it
/// denotes if that fits a `u32`.
fn scan_digits(s: &str, p: usize) -> (r: (usize, Option<u32>))
    requires
        p <= s@.len(),
    ensures
        r.0 == digits_end(s@, p as int),
        p <= r.0 <= s@.len(),
        match r.1 {
            Some(v) => dec_value(s@.subrange(p as int, r.0 as int)) == v,
            None => dec_value(s@.subrange(p as int, r.0 as int)) > u32::MAX,
        },
{
    let n = s.unicode_len();
    let mut i: usize = p;
    let mut acc: u64 = 0;
    let mut big = false;
    let mut done = false;
    proof {
        assert(s@.subrange(p as int, p as int) =~= Seq::<char>::empty());
    }
    while i < n && !done
        invariant
            p <= i <= n,
            n == s@.len(),
            forall|j: int| p <= j < i ==> is_digit(#[trigger] s@[j]),
            done ==> i as int == digits_end(s@, p as int),
            big ==> dec_value(s@.subrange(p as int, i as int)) > u32::MAX,
            !big ==> acc == dec_value(s@.subrange(p as int, i as int)) && acc <= u32::MAX,
        decreases n - i, (if done { 0int } else { 1int }),
    {
        let c = s.get_char(i);
        let u = c as u32;
        if 48 <= u && u <= 57 {
            proof {
                assert(is_digit(s@[i as int]));
                assert(s@.subrange(p as int, i + 1 as int).drop_last() =~= s@.subrange(
                    p as int,
                    i as int,
                ));
                assert(s@.subrange(p as int, i + 1 as int).last() == s@[i as int]);
                assert(digit_val(s@[i as int]) == u - 48);
            }
            if !big {
                let next = acc * 10 + ((u - 48) as u64);
                if next > 0xffff_ffff {
                    big = true;
                } else {
                    acc = next;
                }
            }
            i += 1;
        } else {
            proof {
                lemma_digits_end_is(s@, p as int, i as int);
            }
            done = true;
        }
    }
    proof {
        if !done {
            lemma_digits_end_is(s@, p as int, n as int);
        }
    }
    if big {
        (i, None)
    } else {
        (i, Some(acc as u32))
    }
}

/// Parse a header line back into page count, width and height.
pub fn parse_header(s: &str) -> (r: Option<(u32, u32, u32)>)
    ensures
        r == parse_header_spec(s@),
{
    let sl = s.unicode_len();
    if !match_lit(s, 0, "{\"page_num\": ") {
        return None;
    }
    let p1 = "{\"page_num\": ".unicode_len();
    let (q1, v1) = scan_digits(s, p1);
    if q1 == p1 {
        return None;
    }
    let n = match v1 {
        Some(v) => v,
        None => {
            return None;
        },
    };
    if !match_lit(s, q1, ", \"width\": ") {
        return None;
    }
    let p2 = q1 + ", \"width\": ".unicode_len();
    let (q2, v2) = scan_digits(s, p2);
    if q2 == p2 {
        return None;
    }
    let w = match v2 {
        Some(v) => v,
        None => {
            return None;
        },
    };
    if !match_lit(s, q2, ", \"height\": ") {
        return None;
    }
    let p3 = q2 + ", \"height\": ".unicode_len();
    let (q3, v3) = scan_digits(s, p3);
    if q3 == p3 {
        return None;
    }
    let h = match v3 {
        Some(v) => v,
        None => {
            return None;
        },
    };
    if q3 < sl && q3 + 1 == sl && s.get_char(q3) == '}' {
        Some((n, w, h))
    } else {
        None
    }
}

/// The per-page binary frames: each page's raw pixel bytes, in page order.
pub open spec fn frames_spec(pages: Seq<Page>) -> Seq<Seq<u8>> {
    pages.map_values(|p: Page| p.data@)
}

/// Encode one broadcast in the binary wire format: a header text frame
/// describing the page count and the first page's dimensions, followed by
/// one binary frame per page holding its raw pixel bytes, in page order.
pub fn encode_pages(pages: &Vec<Page>) -> (r: (String, Vec<Vec<u8>>))
    requires
        1 <= pages@.len() <= u32::MAX,
    ensures
        r.0@ == header_spec(
            pages@.len() as int,
            pages@[0].width as int,
            pages@[0].height as int,
        ),
        r.1@.len() == pages@.len(),
        forall|i: int| 0 <= i < pages@.len() ==> (#[trigger] r.1@[i])@ == pages@[i].data@,
{
    let header = encode_header(pages.len() as u32, pages[0].width, pages[0].height);
    let mut frames: Vec<Vec<u8>> = Vec::new();
    let n = pages.len();
    let mut i: usize = 0;
    while i < n
        invariant
            i <= n,
            n == pages@.len(),
            frames@.len() == i,
            forall|j: int| 0 <= j < i ==> (#[trigger] frames@[j])@ == pages@[j].data@,
        decreases n - i,
    {
        frames.push(clone_bytes(&pages[i].data));
        i += 1;
    }
    (header, frames)
}

/// Decode one broadcast of the binary wire format on the client side: the
/// header names the page count and the dimensions shared by all pages, and
/// each binary frame must hold exactly one page's pixels. Anything else is
/// rejected.
pub fn decode_pages(header: &str, frames: &Vec<Vec<u8>>) -> (r: Option<Vec<Page>>)
    ensures
        r is Some <==> (parse_header_spec(header@) matches Some(t) && frames@.len() == t.0
            && (forall|i: int|
            0 <= i < frames@.len() ==> (#[trigger] frames@[i])@.len() == t.1 as nat * t.2 as nat
                * 4)),
        r matches Some(ps) ==> (parse_header_spec(header@) matches Some(t) && ps@.len() == t.0
            && (forall|i: int|
            0 <= i < ps@.len() ==> (#[trigger] ps@[i]).view_tuple() == (t.1, t.2, frames@[i]@)
                && ps@[i].wf())),
{
    let parsed = parse_header(header);
    let (n, w, h) = match parsed {
        Some(t) => t,
        None => {
            return None;
        },
    };
    if frames.len() as u64 != n as u64 {
        return None;
    }
    proof {
        assert((w as int) * (h as int) <= 0xffff_ffff * 0xffff_ffff) by (nonlinear_arith)
            requires
                0 <= w as int <= 0xffff_ffff,
                0 <= h as int <= 0xffff_ffff,
        ;
    }
    let need: u128 = (w as u128) * (h as u128) * 4;
    let m = frames.len();
    let mut pages: Vec<Page> = Vec::new();
    let mut i: usize = 0;
    while i < m
        invariant
            i <= m,
            m == frames@.len(),
            pages@.len() == i,
            need == w as nat * h as nat * 4,
            parse_header_spec(header@) == Some((n, w, h)),
            frames@.len() == n as nat,
            forall|j: int|
                0 <= j < i ==> (#[trigger] frames@[j])@.len() == w as nat * h as nat * 4,
            forall|j: int|
                0 <= j < i ==> (#[trigger] pages@[j]).view_tuple() == (w, h, frames@[j]@)
                    && pages@[j].wf(),
        decreases m - i,
    {
        if frames[i].len() as u128 != need {
            proof {
                assert(frames@[i as int]@.len() != w as nat * h as nat * 4);
            }
            return None;
        }
        pages.push(Page { width: w, height: h, data: clone_bytes(&frames[i]) });
        i += 1;
    }
    Some(pages)
}

/// The header text of any page count and dimensions parses back to exactly
/// those three numbers.
pub proof fn lemma_header_round_trip(n: u32, w: u32, h: u32)
    ensures
        parse_header_spec(header_spec(n as int, w as int, h as int)) == Some((n, w, h)),
{
    let l1 = "{\"page_num\": "@;
    let l2 = ", \"width\": "@;
    let l3 = ", \"height\": "@;
    let l4 = "}"@;
    let s = header_spec(n as int, w as int, h as int);
    lemma_dec_digits_value(n as int);
    lemma_dec_digits_value(w as int);
    lemma_dec_digits_value(h as int);
    let dn = dec_digits(n as int);
    let dw = dec_digits(w as int);
    let dh = dec_digits(h as int);
    reveal_strlit("{\"page_num\": ");
    reveal_strlit(", \"width\": ");
    reveal_strlit(", \"height\": ");
    reveal_strlit("}");
    let p1 = l1.len() as int;
    let q1 = p1 + dn.len();
    let p2 = q1 + l2.len();
    let q2 = p2 + dw.len();
    let p3 = q2 + l3.len();
    let q3 = p3 + dh.len();
    assert(s.len() == q3 + 1);
    assert(has_prefix_at(s, 0, l1)) by {
        assert(s.subrange(0, l1.len() as int) =~= l1);
    }
    assert forall|i: int| p1 <= i < q1 implies is_digit(#[trigger] s[i]) by {
        assert(s[i] == dn[i - p1]);
    }
    assert(s[q1] == l2[0]);
    assert(!is_digit(s[q1]));
    lemma_digits_end_is(s, p1, q1);
    assert(s.subrange(p1, q1) =~= dn);
    assert(has_prefix_at(s, q1, l2)) by {
        assert(s.subrange(q1, q1 + l2.len()) =~= l2);
    }
    assert forall|i: int| p2 <= i < q2 implies is_digit(#[trigger] s[i]) by {
        assert(s[i] == dw[i - p2]);
    }
    assert(s[q2] == l3[0]);
    assert(!is_digit(s[q2]));
    lemma_digits_end_is(s, p2, q2);
    assert(s.subrange(p2, q2) =~= dw);
    assert(has_prefix_at(s, q2, l3)) by {
        assert(s.subrange(q2, q2 + l3.len()) =~= l3);
    }
    assert forall|i: int| p3 <= i < q3 implies is_digit(#[trigger] s[i]) by {
        assert(s[i] == dh[i - p3]);
    }
    assert(s[q3] == l4[0]);
    assert(!is_digit(s[q3]));
    lemma_digits_end_is(s, p3, q3);
    assert(s.subrange(p3, q3) =~= dh);
    assert(s[q3] == '}');
}

/// Round trip of the binary wire format: encoding any one or more well-formed
/// pages that share the first page's dimensions produces a header that parses
/// back to exactly the page count and those dimensions, and one frame per
/// page of exactly the size the header announces — so a client reconstructs
/// the same number of pages with the same dimensions and pixels.
pub proof fn lemma_pages_round_trip(pages: Seq<Page>)
    requires
        1 <= pages.len() <= u32::MAX,
        forall|i: int| 0 <= i < pages.len() ==> (#[trigger] pages[i]).wf(),
        forall|i: int|
            0 <= i < pages.len() ==> (#[trigger] pages[i]).width == pages[0].width
                && pages[i].height == pages[0].height,
    ensures
        parse_header_spec(
            header_spec(pages.len() as int, pages[0].width as int, pages[0].height as int),
        ) == Some((pages.len() as u32, pages[0].width, pages[0].height)),
        frames_spec(pages).len() == pages.len(),
        forall|i: int|
            0 <= i < pages.len() ==> (#[trigger] frames_spec(pages)[i]).len() == pages[0].width
                as nat * pages[0].height as nat * 4,
{
    lemma_header_round_trip(pages.len() as u32, pages[0].width, pages[0].height);
    assert forall|i: int| 0 <= i < pages.len() implies (#[trigger] frames_spec(pages)[i]).len()
        == pages[0].width as nat * pages[0].height as nat * 4 by {
        assert(frames_spec(pages)[i] == pages[i].data@);
        assert(pages[i].wf());
    }
}

} // verus!
