//! Page geometry and per-page checksums: chunking a buffer into flash pages,
//! computing the CRC-16/XMODEM checksum of each page, and comparing a local
//! checksum sequence against the one a device reports.

use vstd::prelude::*;

verus! {

/// The number of pages a buffer of `len` bytes occupies at `page` bytes per
/// page: the ceiling of `len / page`.
pub open spec fn spec_num_pages(len: int, page: int) -> int
    recommends
        page >= 1,
{
    len / page + if len % page == 0 {
        0int
    } else {
        1int
    }
}

/// The bytes of page `i` of a buffer: a full page, or what remains of the
/// buffer for a final partial page.
pub open spec fn page_range(b: Seq<u8>, page: int, i: int) -> Seq<u8>
    recommends
        page >= 1,
        0 <= i < spec_num_pages(b.len() as int, page),
{
    b.subrange(
        i * page,
        if (i + 1) * page <= b.len() {
            (i + 1) * page
        } else {
            b.len() as int
        },
    )
}

/// The CRC-16/XMODEM checksum of a byte sequence (polynomial 0x1021, initial
/// value 0, no reflection).
pub uninterp spec fn crc16_xmodem_of(data: Seq<u8>) -> u16;

/// The per-page checksum sequence of a buffer: one CRC-16/XMODEM value per
/// page, in page order.
pub open spec fn local_checksums(b: Seq<u8>, page: int) -> Seq<u16>
    recommends
        page >= 1,
{
    Seq::new(
        spec_num_pages(b.len() as int, page) as nat,
        |i: int| crc16_xmodem_of(page_range(b, page, i)),
    )
}

/// Relies on `crc_any::CRCu16::crc16xmodem`, `CRCu16::digest` and
/// `CRCu16::get_crc`: the CRC-16/XMODEM checksum is a function of the
/// digested bytes alone.
#[verifier::external_body]
pub(crate) fn crc16_xmodem(data: &[u8]) -> (r: u16)
    ensures
        r == crc16_xmodem_of(data@),
{
    let mut xmodem = crc_any::CRCu16::crc16xmodem();
    xmodem.digest(data);
    xmodem.get_crc()
}

/// Places `spec_num_pages` between the bounds its multiples give.
pub proof fn lemma_num_pages_bounds(len: int, page: int)
    requires
        page >= 1,
        len >= 0,
    ensures
        spec_num_pages(len, page) >= 0,
        spec_num_pages(len, page) * page >= len,
        spec_num_pages(len, page) * page < len + page,
        len % page == 0 ==> spec_num_pages(len, page) * page == len,
        len > 0 ==> (spec_num_pages(len, page) - 1) * page < len,
        len > 0 ==> spec_num_pages(len, page) >= 1,
{
    let q = len / page;
    vstd::arithmetic::div_mod::lemma_fundamental_div_mod(len, page);
    vstd::arithmetic::div_mod::lemma_mod_division_less_than_divisor(len, page);
    vstd::arithmetic::div_mod::lemma_div_pos_is_pos(len, page);
    vstd::arithmetic::mul::lemma_mul_is_commutative(page, q);
    vstd::arithmetic::mul::lemma_mul_is_distributive_add_other_way(page, q, 1);
    vstd::arithmetic::mul::lemma_mul_is_distributive_sub_other_way(page, q, 1);
    vstd::arithmetic::mul::lemma_mul_basics(page);
}

/// Computing the page count of a non-empty buffer as `(len - 1) / page + 1`
/// agrees with the ceiling `spec_num_pages`.
proof fn lemma_num_pages_alt(len: int, page: int)
    requires
        page >= 1,
        len > 0,
    ensures
        (len - 1) / page + 1 == spec_num_pages(len, page),
{
    let q = len / page;
    let r = len % page;
    vstd::arithmetic::div_mod::lemma_fundamental_div_mod(len, page);
    vstd::arithmetic::div_mod::lemma_mod_division_less_than_divisor(len, page);
    vstd::arithmetic::div_mod::lemma_div_pos_is_pos(len, page);
    vstd::arithmetic::mul::lemma_mul_is_commutative(page, q);
    vstd::arithmetic::mul::lemma_mul_basics(page);
    if r == 0 {
        vstd::arithmetic::mul::lemma_mul_is_distributive_sub_other_way(page, q, 1);
        vstd::arithmetic::div_mod::lemma_fundamental_div_mod_converse_div(
            len - 1,
            page,
            q - 1,
            page - 1,
        );
    } else {
        vstd::arithmetic::div_mod::lemma_fundamental_div_mod_converse_div(len - 1, page, q, r - 1);
    }
}

/// A buffer whose length is a multiple of the page size splits into exactly
/// `len / page` full pages.
pub proof fn lemma_num_pages_exact(len: int, page: int)
    requires
        page >= 1,
        len >= 0,
        len % page == 0,
    ensures
        spec_num_pages(len, page) == len / page,
{
}

/// Per-page checksums depend on page content alone: two pages with identical
/// bytes have identical checksums, wherever in their buffers they stand.
pub proof fn lemma_checksum_content_only(b1: Seq<u8>, p1: int, i: int, b2: Seq<u8>, p2: int, j: int)
    requires
        p1 >= 1,
        p2 >= 1,
        0 <= i < spec_num_pages(b1.len() as int, p1),
        0 <= j < spec_num_pages(b2.len() as int, p2),
        page_range(b1, p1, i) == page_range(b2, p2, j),
    ensures
        local_checksums(b1, p1)[i] == local_checksums(b2, p2)[j],
{
}

/// Computes the per-page CRC-16/XMODEM checksum sequence of a buffer.
pub fn page_checksums(bytes: &Vec<u8>, page_size: u32) -> (r: Vec<u16>)
    requires
        page_size >= 1,
    ensures
        r@ == local_checksums(bytes@, page_size as int),
{
    let p: usize = page_size as usize;
    let blen: usize = bytes.len();
    let n: usize = if blen == 0 {
        0
    } else {
        proof {
            vstd::arithmetic::div_mod::lemma_div_nonincreasing(blen - 1, p as int);
            lemma_num_pages_alt(blen as int, p as int);
        }
        (blen - 1) / p + 1
    };
    proof {
        lemma_num_pages_bounds(blen as int, p as int);
        assert(n == spec_num_pages(blen as int, p as int));
    }
    let mut r: Vec<u16> = Vec::new();
    let mut i: usize = 0;
    #[verifier::loop_isolation(false)]
    while i < n
        invariant
            r@.len() == i,
            i <= n,
            forall|k: int|
                0 <= k < i ==> r@[k] == crc16_xmodem_of(page_range(bytes@, p as int, k)),
        decreases n - i,
    {
        proof {
            vstd::arithmetic::mul::lemma_mul_inequality(i as int, n - 1, p as int);
            vstd::arithmetic::mul::lemma_mul_is_distributive_add_other_way(p as int, i as int, 1);
            vstd::arithmetic::mul::lemma_mul_basics(p as int);
        }
        let start: usize = i * p;
        let end: usize = if blen - start < p {
            blen
        } else {
            start + p
        };
        let page = vstd::slice::slice_subrange(bytes.as_slice(), start, end);
        let c = crc16_xmodem(page);
        r.push(c);
        proof {
            assert(page@ =~= page_range(bytes@, p as int, i as int));
        }
        i = i + 1;
    }
    proof {
        assert(r@ =~= local_checksums(bytes@, page_size as int));
    }
    r
}

/// The ascending list of positions below `n` where two checksum sequences
/// disagree.
pub open spec fn mismatch_list(l: Seq<u16>, d: Seq<u16>, n: int) -> Seq<usize>
    recommends
        n <= l.len(),
        n <= d.len(),
        n <= usize::MAX,
    decreases n,
{
    if n <= 0 {
        Seq::empty()
    } else if l[n - 1] != d[n - 1] {
        mismatch_list(l, d, n - 1).push((n - 1) as usize)
    } else {
        mismatch_list(l, d, n - 1)
    }
}

/// The mismatch list is empty exactly when the first `n` entries of the two
/// sequences agree at every position.
pub proof fn lemma_no_mismatch(l: Seq<u16>, d: Seq<u16>, n: int)
    requires
        0 <= n,
    ensures
        mismatch_list(l, d, n).len() == 0 <==> (forall|i: int| 0 <= i < n ==> l[i] == d[i]),
    decreases n,
{
    if n > 0 {
        lemma_no_mismatch(l, d, n - 1);
    }
}

/// Compares a local checksum sequence against the first entries of a device's
/// checksum sequence, collecting every mismatching page index in order.
pub fn mismatched_pages(local: &Vec<u16>, device: &Vec<u16>) -> (r: Vec<usize>)
    requires
        local@.len() <= device@.len(),
    ensures
        r@ == mismatch_list(local@, device@, local@.len() as int),
{
    let mut r: Vec<usize> = Vec::new();
    let mut i: usize = 0;
    #[verifier::loop_isolation(false)]
    while i < local.len()
        invariant
            i <= local@.len(),
            r@ == mismatch_list(local@, device@, i as int),
        decreases local@.len() - i,
    {
        if local[i] != device[i] {
            r.push(i);
        }
        i = i + 1;
    }
    r
}

} // verus!
