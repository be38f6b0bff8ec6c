//! Model of one task's address space, as the address-space manager keeps it:
//! which virtual pages are mapped, with which permission bits, and onto which
//! physical frames. The syscall layer validates mapping requests against this
//! state and translates user virtual addresses through it before any write
//! into user memory.

use crate::config::{MAX_PPN, PAGE_SIZE, PORT_MASK, PORT_READ, PORT_WRITE};
use crate::error::SysError;
use vstd::arithmetic::div_mod::{
    lemma_div_is_ordered, lemma_fundamental_div_mod, lemma_fundamental_div_mod_converse_div,
    lemma_hoist_over_denominator,
};
use vstd::prelude::*;

verus! {

/// One mapped page: its virtual page number, the physical frame backing it,
/// and the permission bits the mapping was made with.
#[derive(Clone, Copy, Debug, PartialEq, Eq, Structural)]
pub struct PageEntry {
    pub vpn: usize,
    pub ppn: usize,
    pub perm: usize,
}

/// One task's page tables: the token naming the address space, the mapped
/// pages, and the next physical frame the allocator will hand out.
pub struct MemorySet {
    pub token: usize,
    pub pages: Vec<PageEntry>,
    pub next_ppn: usize,
}

/// Whether some entry maps virtual page `vpn`.
pub open spec fn vpn_mapped(pages: Seq<PageEntry>, vpn: int) -> bool {
    exists|i: int| 0 <= i < pages.len() && (#[trigger] pages[i]).vpn == vpn
}

/// Index of the entry mapping `vpn`; meaningful only when `vpn_mapped` holds
/// and the table is well-formed, which makes the entry unique.
pub open spec fn idx_for(pages: Seq<PageEntry>, vpn: int) -> int {
    choose|i: int| 0 <= i < pages.len() && (#[trigger] pages[i]).vpn == vpn
}

/// The entry mapping `vpn`.
pub open spec fn entry_for(pages: Seq<PageEntry>, vpn: int) -> PageEntry {
    pages[idx_for(pages, vpn)]
}

/// Well-formed page tables: no virtual page mapped twice, only recognized
/// permission bits, every frame below the allocation watermark, and the
/// watermark itself within the physical address space.
pub open spec fn pages_wf(pages: Seq<PageEntry>, next_ppn: int) -> bool {
    &&& forall|i: int, j: int|
        0 <= i < j < pages.len() ==> (#[trigger] pages[i]).vpn != (#[trigger] pages[j]).vpn
    &&& forall|i: int| 0 <= i < pages.len() ==> (#[trigger] pages[i]).perm <= PORT_MASK
    &&& forall|i: int| 0 <= i < pages.len() ==> (#[trigger] pages[i]).ppn < next_ppn
    &&& 0 <= next_ppn <= MAX_PPN
}

/// Whether permission bits `perm` admit the requested access mode.
pub open spec fn perm_allows(perm: usize, write: bool) -> bool {
    if write {
        perm & PORT_WRITE != 0
    } else {
        perm & PORT_READ != 0
    }
}

/// A `(token, address)` pair is valid for an access of `size` bytes when the
/// token names this address space, the whole access stays inside one page,
/// that page is mapped, and the mapping carries the needed permission.
pub open spec fn translate_ok(
    pages: Seq<PageEntry>,
    set_token: usize,
    token: usize,
    vaddr: usize,
    size: usize,
    write: bool,
) -> bool {
    &&& token == set_token
    &&& 0 < size
    &&& vaddr % PAGE_SIZE + size <= PAGE_SIZE
    &&& vpn_mapped(pages, (vaddr / PAGE_SIZE) as int)
    &&& perm_allows(entry_for(pages, (vaddr / PAGE_SIZE) as int).perm, write)
}

/// The kernel-usable address a valid translation yields: the same offset
/// inside the physical frame backing the page.
pub open spec fn spec_kaddr(pages: Seq<PageEntry>, vaddr: usize) -> int {
    entry_for(pages, (vaddr / PAGE_SIZE) as int).ppn * PAGE_SIZE + vaddr % PAGE_SIZE
}

/// Number of pages the byte range `[start, start + len)` spans when `start`
/// is page-aligned and `len > 0`.
pub open spec fn page_span(len: int) -> int {
    (len - 1) / (PAGE_SIZE as int) + 1
}

/// No virtual page in `[svpn, svpn + n)` is mapped.
pub open spec fn range_free(pages: Seq<PageEntry>, svpn: int, n: int) -> bool {
    forall|v: int| svpn <= v < svpn + n ==> !vpn_mapped(pages, v)
}

/// Every virtual page in `[svpn, svpn + n)` is mapped.
pub open spec fn range_mapped(pages: Seq<PageEntry>, svpn: int, n: int) -> bool {
    forall|v: int| svpn <= v < svpn + n ==> vpn_mapped(pages, v)
}

/// The first validation rule an mmap request breaks, `None` when it is
/// well-formed, in the order the handler checks: page alignment of `start`,
/// recognized permission bits only, zero length (a no-op, accepted), a byte
/// range that stays representable, enough physical frames, and no overlap
/// with an existing mapping.
pub open spec fn mmap_check_s(
    pages: Seq<PageEntry>,
    next_ppn: int,
    start: usize,
    len: usize,
    port: usize,
) -> Option<SysError> {
    if start % PAGE_SIZE != 0 {
        Some(SysError::InvalidArgument)
    } else if port > PORT_MASK {
        Some(SysError::InvalidArgument)
    } else if len == 0 {
        None
    } else if len - 1 > usize::MAX - start {
        Some(SysError::InvalidArgument)
    } else if next_ppn + page_span(len as int) > MAX_PPN {
        Some(SysError::ResourceConflict)
    } else if !range_free(pages, (start / PAGE_SIZE) as int, page_span(len as int)) {
        Some(SysError::ResourceConflict)
    } else {
        None
    }
}

/// The entries a successful mmap appends: consecutive virtual pages from
/// `svpn`, backed by consecutive fresh frames from `base_ppn`, all with the
/// requested permission bits.
pub open spec fn new_entries(svpn: int, base_ppn: int, n: int, perm: usize) -> Seq<PageEntry> {
    Seq::new(
        n as nat,
        |i: int|
            PageEntry { vpn: (svpn + i) as usize, ppn: (base_ppn + i) as usize, perm },
    )
}

/// The page table after an mmap request: unchanged unless the request is
/// well-formed and non-empty, in which case the new entries are appended.
pub open spec fn pages_after_mmap_s(
    pages: Seq<PageEntry>,
    next_ppn: int,
    start: usize,
    len: usize,
    port: usize,
) -> Seq<PageEntry> {
    if len == 0 || mmap_check_s(pages, next_ppn, start, len, port) is Some {
        pages
    } else {
        pages + new_entries(
            (start / PAGE_SIZE) as int,
            next_ppn,
            page_span(len as int),
            port,
        )
    }
}

/// The frame-allocation watermark after an mmap request.
pub open spec fn next_after_mmap_s(
    pages: Seq<PageEntry>,
    next_ppn: int,
    start: usize,
    len: usize,
    port: usize,
) -> int {
    if len == 0 || mmap_check_s(pages, next_ppn, start, len, port) is Some {
        next_ppn
    } else {
        next_ppn + page_span(len as int)
    }
}

/// Bounds of a representable, page-aligned, non-empty byte range: its last
/// page is the page of its last byte, and no page number in it exceeds the
/// physical address space.
pub proof fn lemma_span_bounds(start: usize, len: usize)
    requires
        start % PAGE_SIZE == 0,
        len > 0,
        len - 1 <= usize::MAX - start,
    ensures
        1 <= page_span(len as int),
        (start / PAGE_SIZE) as int + page_span(len as int) - 1 == (start + len - 1) as int / (
        PAGE_SIZE as int),
        (start / PAGE_SIZE) as int + page_span(len as int) - 1 <= MAX_PPN,
{
    let svpn = (start / PAGE_SIZE) as int;
    assert(start == (PAGE_SIZE as int) * svpn + 0) by {
        lemma_fundamental_div_mod(start as int, PAGE_SIZE as int);
    }
    lemma_hoist_over_denominator(len - 1, svpn, PAGE_SIZE as nat);
    assert((len - 1) / (PAGE_SIZE as int) + svpn == (len - 1 + svpn * PAGE_SIZE) / (
    PAGE_SIZE as int));
    lemma_div_is_ordered((start + len - 1) as int, usize::MAX as int, PAGE_SIZE as int);
}

/// The predicate a page entry must satisfy to survive an unmap of the pages
/// `[svpn, svpn + n)`: its virtual page lies outside that range.
pub open spec fn outside_range(svpn: int, n: int) -> spec_fn(PageEntry) -> bool {
    |p: PageEntry| !(svpn <= p.vpn as int && (p.vpn as int) < svpn + n)
}

/// The first validation rule a munmap request breaks, `None` when it is
/// well-formed, in the order the handler checks: page alignment of `start`,
/// zero length (a no-op, accepted, as for mmap), a representable byte range,
/// and full coverage — a region not entirely mapped is refused whole, never
/// partially unmapped.
pub open spec fn munmap_check_s(pages: Seq<PageEntry>, start: usize, len: usize) -> Option<
    SysError,
> {
    if start % PAGE_SIZE != 0 {
        Some(SysError::InvalidArgument)
    } else if len == 0 {
        None
    } else if len - 1 > usize::MAX - start {
        Some(SysError::InvalidArgument)
    } else if !range_mapped(pages, (start / PAGE_SIZE) as int, page_span(len as int)) {
        Some(SysError::ResourceConflict)
    } else {
        None
    }
}

/// The page table after a munmap request: unchanged unless the request is
/// well-formed and non-empty, in which case exactly the entries in the range
/// are dropped.
pub open spec fn pages_after_munmap_s(pages: Seq<PageEntry>, start: usize, len: usize) -> Seq<
    PageEntry,
> {
    if len == 0 || munmap_check_s(pages, start, len) is Some {
        pages
    } else {
        pages.filter(outside_range((start / PAGE_SIZE) as int, page_span(len as int)))
    }
}

/// Every entry the filter keeps is an entry of the table it was applied to.
pub proof fn lemma_filter_entries(pages: Seq<PageEntry>, pred: spec_fn(PageEntry) -> bool)
    ensures
        forall|k: int|
            0 <= k < pages.filter(pred).len() ==> exists|j: int|
                0 <= j < pages.len() && #[trigger] pages.filter(pred)[k] == pages[j],
    decreases pages.len(),
{
    reveal(Seq::filter);
    if pages.len() != 0 {
        let rest = pages.drop_last();
        lemma_filter_entries(rest, pred);
        let f = pages.filter(pred);
        let fr = rest.filter(pred);
        assert forall|k: int| 0 <= k < f.len() implies exists|j: int|
            0 <= j < pages.len() && #[trigger] f[k] == pages[j] by {
            if k < fr.len() {
                assert(f[k] == fr[k]);
                let j = choose|j: int| 0 <= j < rest.len() && fr[k] == rest[j];
                assert(f[k] == pages[j]);
            } else {
                assert(f[k] == pages.last());
                assert(f[k] == pages[pages.len() - 1]);
            }
        }
    }
}

/// Dropping entries keeps the page table well-formed under the same frame
/// watermark.
pub proof fn lemma_filter_preserves_wf(
    pages: Seq<PageEntry>,
    next_ppn: int,
    pred: spec_fn(PageEntry) -> bool,
)
    requires
        pages_wf(pages, next_ppn),
    ensures
        pages_wf(pages.filter(pred), next_ppn),
    decreases pages.len(),
{
    reveal(Seq::filter);
    if pages.len() != 0 {
        let rest = pages.drop_last();
        assert(pages_wf(rest, next_ppn));
        lemma_filter_preserves_wf(rest, next_ppn, pred);
        lemma_filter_entries(rest, pred);
        let f = pages.filter(pred);
        let fr = rest.filter(pred);
        if pred(pages.last()) {
            assert(f == fr.push(pages.last()));
            assert forall|a: int, b: int| 0 <= a < b < f.len() implies (#[trigger] f[a]).vpn
                != (#[trigger] f[b]).vpn by {
                if b < fr.len() {
                    assert(f[a] == fr[a] && f[b] == fr[b]);
                } else {
                    assert(f[a] == fr[a]);
                    assert(f[b] == pages[pages.len() - 1]);
                    let j = choose|j: int| 0 <= j < rest.len() && fr[a] == rest[j];
                    assert(f[a] == pages[j]);
                    assert(pages[j].vpn != pages[pages.len() - 1].vpn);
                }
            }
            assert forall|i: int| 0 <= i < f.len() implies (#[trigger] f[i]).perm <= PORT_MASK
                && f[i].ppn < next_ppn by {
                if i < fr.len() {
                    assert(f[i] == fr[i]);
                } else {
                    assert(f[i] == pages[pages.len() - 1]);
                }
            }
        }
    }
}

/// A concatenated page table maps exactly the pages either part maps.
pub proof fn lemma_mapped_concat(a: Seq<PageEntry>, b: Seq<PageEntry>, v: int)
    ensures
        vpn_mapped(a + b, v) <==> (vpn_mapped(a, v) || vpn_mapped(b, v)),
{
    if vpn_mapped(a, v) {
        let i = choose|i: int| 0 <= i < a.len() && (#[trigger] a[i]).vpn == v;
        assert((a + b)[i] == a[i]);
    }
    if vpn_mapped(b, v) {
        let i = choose|i: int| 0 <= i < b.len() && (#[trigger] b[i]).vpn == v;
        assert((a + b)[a.len() + i] == b[i]);
    }
    if vpn_mapped(a + b, v) {
        let i = choose|i: int| 0 <= i < (a + b).len() && (#[trigger] (a + b)[i]).vpn == v;
        if i < a.len() {
            assert(a[i] == (a + b)[i]);
        } else {
            assert(b[i - a.len()] == (a + b)[i]);
        }
    }
}

/// A filter that keeps every entry changes nothing.
pub proof fn lemma_filter_all(pages: Seq<PageEntry>, pred: spec_fn(PageEntry) -> bool)
    requires
        forall|i: int| 0 <= i < pages.len() ==> pred(#[trigger] pages[i]),
    ensures
        pages.filter(pred) == pages,
    decreases pages.len(),
{
    reveal(Seq::filter);
    if pages.len() != 0 {
        let rest = pages.drop_last();
        lemma_filter_all(rest, pred);
        assert(pred(pages.last()));
        assert(pages.filter(pred) =~= pages);
    }
}

/// A filter that keeps no entry empties the table.
pub proof fn lemma_filter_none(pages: Seq<PageEntry>, pred: spec_fn(PageEntry) -> bool)
    requires
        forall|i: int| 0 <= i < pages.len() ==> !pred(#[trigger] pages[i]),
    ensures
        pages.filter(pred) == Seq::<PageEntry>::empty(),
    decreases pages.len(),
{
    reveal(Seq::filter);
    if pages.len() != 0 {
        let rest = pages.drop_last();
        lemma_filter_none(rest, pred);
        assert(pages.filter(pred) =~= Seq::<PageEntry>::empty());
    }
}

/// Law: a zero-length mapping request never changes the address space and is
/// answered the same way every time — repeated calls are idempotent, for
/// mmap and munmap alike. Only the request's shape (alignment for both,
/// permission bits for mmap) decides between the no-op success and the
/// rejection, and the shape does not depend on the state.
pub proof fn lemma_zero_len_idempotent(
    pages: Seq<PageEntry>,
    next_ppn: int,
    start: usize,
    port: usize,
)
    ensures
        pages_after_mmap_s(pages, next_ppn, start, 0, port) == pages,
        next_after_mmap_s(pages, next_ppn, start, 0, port) == next_ppn,
        pages_after_munmap_s(pages, start, 0) == pages,
        mmap_check_s(pages, next_ppn, start, 0, port) == mmap_check_s(
            pages_after_mmap_s(pages, next_ppn, start, 0, port),
            next_after_mmap_s(pages, next_ppn, start, 0, port),
            start,
            0,
            port,
        ),
        mmap_check_s(pages, next_ppn, start, 0, port) is None <==> (start % PAGE_SIZE == 0 && port
            <= PORT_MASK),
        munmap_check_s(pages, start, 0) is None <==> start % PAGE_SIZE == 0,
{
}

/// Law: a successful mapping makes every page of the range mapped, with
/// exactly the requested permission bits, and leaves every other page as it
/// was.
pub proof fn lemma_mmap_maps(
    pages: Seq<PageEntry>,
    next_ppn: int,
    start: usize,
    len: usize,
    port: usize,
)
    requires
        pages_wf(pages, next_ppn),
        len > 0,
        mmap_check_s(pages, next_ppn, start, len, port) is None,
    ensures
        ({
            let svpn = (start / PAGE_SIZE) as int;
            let n = page_span(len as int);
            let p1 = pages_after_mmap_s(pages, next_ppn, start, len, port);
            &&& pages_wf(p1, next_after_mmap_s(pages, next_ppn, start, len, port))
            &&& forall|v: int|
                svpn <= v < svpn + n ==> vpn_mapped(p1, v) && entry_for(p1, v).perm == port
            &&& forall|v: int|
                !(svpn <= v < svpn + n) ==> (vpn_mapped(p1, v) <==> vpn_mapped(pages, v))
        }),
{
    let svpn = (start / PAGE_SIZE) as int;
    let n = page_span(len as int);
    let fresh = new_entries(svpn, next_ppn, n, port);
    let p1 = pages_after_mmap_s(pages, next_ppn, start, len, port);
    lemma_span_bounds(start, len);
    assert(p1 == pages + fresh);
    assert forall|a: int, b: int| 0 <= a < b < p1.len() implies (#[trigger] p1[a]).vpn
        != (#[trigger] p1[b]).vpn by {
        let base_len = pages.len() as int;
        if b < base_len {
            assert(pages[a].vpn != pages[b].vpn);
        } else if a >= base_len {
            assert(p1[a].vpn == svpn + (a - base_len));
            assert(p1[b].vpn == svpn + (b - base_len));
        } else {
            let bv = p1[b].vpn as int;
            assert(svpn <= bv < svpn + n);
            assert(!vpn_mapped(pages, bv));
            assert(pages[a].vpn != bv);
        }
    }
    assert forall|v: int| svpn <= v < svpn + n implies vpn_mapped(p1, v) && entry_for(p1, v).perm
        == port by {
        let i = pages.len() + (v - svpn);
        assert(p1[i] == fresh[v - svpn]);
        assert(p1[i].vpn == v);
        lemma_entry_unique(p1, next_ppn + n, i);
    }
    assert forall|v: int| !(svpn <= v < svpn + n) implies (vpn_mapped(p1, v) <==> vpn_mapped(
        pages,
        v,
    )) by {
        lemma_mapped_concat(pages, fresh, v);
        if vpn_mapped(fresh, v) {
            let i = choose|i: int| 0 <= i < fresh.len() && (#[trigger] fresh[i]).vpn == v;
            assert(svpn <= fresh[i].vpn as int && (fresh[i].vpn as int) < svpn + n);
        }
    }
}

/// Law: mapping a fresh region and then unmapping it with the same
/// `(start, len)` succeeds, restores the address space to exactly the page
/// table it had before — no residual mapping anywhere in the region — and a
/// second unmap of the same region fails, changing nothing.
pub proof fn lemma_mmap_munmap_round_trip(
    pages: Seq<PageEntry>,
    next_ppn: int,
    start: usize,
    len: usize,
    port: usize,
)
    requires
        pages_wf(pages, next_ppn),
        len > 0,
        mmap_check_s(pages, next_ppn, start, len, port) is None,
    ensures
        ({
            let svpn = (start / PAGE_SIZE) as int;
            let n = page_span(len as int);
            let p1 = pages_after_mmap_s(pages, next_ppn, start, len, port);
            let p2 = pages_after_munmap_s(p1, start, len);
            &&& munmap_check_s(p1, start, len) is None
            &&& p2 == pages
            &&& forall|v: int| svpn <= v < svpn + n ==> !vpn_mapped(p2, v)
            &&& munmap_check_s(p2, start, len) == Some(SysError::ResourceConflict)
            &&& pages_after_munmap_s(p2, start, len) == p2
        }),
{
    let svpn = (start / PAGE_SIZE) as int;
    let n = page_span(len as int);
    let fresh = new_entries(svpn, next_ppn, n, port);
    let p1 = pages_after_mmap_s(pages, next_ppn, start, len, port);
    lemma_span_bounds(start, len);
    lemma_mmap_maps(pages, next_ppn, start, len, port);
    assert(range_mapped(p1, svpn, n));
    assert(munmap_check_s(p1, start, len) is None);
    let pred = outside_range(svpn, n);
    let p2 = pages_after_munmap_s(p1, start, len);
    assert(p2 == p1.filter(pred));
    assert((pages + fresh).filter(pred) == pages.filter(pred) + fresh.filter(pred)) by {
        Seq::<PageEntry>::filter_distributes_over_add(pages, fresh, pred);
    }
    assert forall|i: int| 0 <= i < pages.len() implies pred(#[trigger] pages[i]) by {
        let pv = pages[i].vpn as int;
        if svpn <= pv < svpn + n {
            lemma_entry_unique(pages, next_ppn, i);
            assert(vpn_mapped(pages, pv));
            assert(!vpn_mapped(pages, pv));
        }
    }
    lemma_filter_all(pages, pred);
    assert forall|i: int| 0 <= i < fresh.len() implies !pred(#[trigger] fresh[i]) by {
        assert(fresh[i].vpn == svpn + i);
    }
    lemma_filter_none(fresh, pred);
    assert(p2 =~= pages);
    assert forall|v: int| svpn <= v < svpn + n implies !vpn_mapped(p2, v) by {
        assert(!vpn_mapped(pages, v));
    }
    assert(!vpn_mapped(p2, svpn));
    assert(!range_mapped(p2, svpn, n));
}

/// In well-formed tables the entry holding a virtual page number is the one
/// `entry_for` denotes: mapping lookup is unambiguous.
pub proof fn lemma_entry_unique(pages: Seq<PageEntry>, next_ppn: int, i: int)
    requires
        pages_wf(pages, next_ppn),
        0 <= i < pages.len(),
    ensures
        vpn_mapped(pages, pages[i].vpn as int),
        entry_for(pages, pages[i].vpn as int) == pages[i],
        idx_for(pages, pages[i].vpn as int) == i,
{
    let vpn = pages[i].vpn as int;
    assert(0 <= i < pages.len() && pages[i].vpn == vpn);
    let j = idx_for(pages, vpn);
    assert(0 <= j < pages.len() && pages[j].vpn == vpn);
    if i < j {
        assert(pages[i].vpn != pages[j].vpn);
    } else if j < i {
        assert(pages[j].vpn != pages[i].vpn);
    }
}

/// Law: translation is a pure lookup. A `(token, address)` pair that is
/// mapped with the needed permission always translates, the result fits in a
/// machine word, and it aliases exactly the frame backing the page, at the
/// same offset — so it is usable for one access of the requested size, and
/// repeating the translation against unchanged page tables yields the same
/// address.
pub proof fn lemma_translate_in_frame(
    pages: Seq<PageEntry>,
    next_ppn: int,
    set_token: usize,
    token: usize,
    vaddr: usize,
    size: usize,
    write: bool,
)
    requires
        pages_wf(pages, next_ppn),
        translate_ok(pages, set_token, token, vaddr, size, write),
    ensures
        0 <= spec_kaddr(pages, vaddr) <= usize::MAX,
        spec_kaddr(pages, vaddr) / (PAGE_SIZE as int) == entry_for(
            pages,
            (vaddr / PAGE_SIZE) as int,
        ).ppn,
        spec_kaddr(pages, vaddr) % (PAGE_SIZE as int) == vaddr % PAGE_SIZE,
{
    let vpn = (vaddr / PAGE_SIZE) as int;
    let e = entry_for(pages, vpn);
    let i = idx_for(pages, vpn);
    assert(0 <= i < pages.len() && pages[i].vpn == vpn);
    assert(e.ppn < next_ppn);
    let off = (vaddr % PAGE_SIZE) as int;
    assert((PAGE_SIZE as int) * ((usize::MAX as int) / (PAGE_SIZE as int)) <= usize::MAX as int)
        by {
        lemma_fundamental_div_mod(usize::MAX as int, PAGE_SIZE as int);
    }
    assert(e.ppn * PAGE_SIZE + off <= usize::MAX);
    lemma_fundamental_div_mod_converse_div(
        e.ppn * PAGE_SIZE + off,
        PAGE_SIZE as int,
        e.ppn as int,
        off,
    );
    assert(spec_kaddr(pages, vaddr) == e.ppn * PAGE_SIZE + off);
}

impl MemorySet {
    /// Well-formed address space.
    pub open spec fn wf(self) -> bool {
        pages_wf(self.pages@, self.next_ppn as int)
    }

    /// A fresh, empty address space answering to `token`.
    pub fn new(token: usize) -> (r: MemorySet)
        ensures
            r.wf(),
            r.token == token,
            r.pages@.len() == 0,
            r.next_ppn == 0,
    {
        MemorySet { token, pages: Vec::new(), next_ppn: 0 }
    }

    /// Linear scan of the page table for a virtual page number.
    fn find(&self, vpn: usize) -> (r: Option<usize>)
        ensures
            match r {
                Some(i) => i < self.pages@.len() && self.pages@[i as int].vpn == vpn,
                None => !vpn_mapped(self.pages@, vpn as int),
            },
    {
        let mut i: usize = 0;
        while i < self.pages.len()
            invariant
                i <= self.pages@.len(),
                forall|j: int| 0 <= j < i ==> (#[trigger] self.pages@[j]).vpn != vpn,
            decreases self.pages@.len() - i,
        {
            if self.pages[i].vpn == vpn {
                return Some(i);
            }
            i += 1;
        }
        None
    }

    /// Turns a user virtual address into a kernel-usable address for one
    /// access of `size` bytes, in the access mode named by `write`. This is a
    /// pure lookup against the existing page tables: no side effects. It
    /// fails — and the caller must propagate a negative return code rather
    /// than touch memory — when the token does not name this address space,
    /// the page is unmapped or lacks the permission, or the access would
    /// cross a page boundary.
    pub fn translate(&self, token: usize, vaddr: usize, size: usize, write: bool) -> (r: Result<
        usize,
        SysError,
    >)
        requires
            self.wf(),
        ensures
            match r {
                Ok(ka) => translate_ok(self.pages@, self.token, token, vaddr, size, write)
                    && ka == spec_kaddr(self.pages@, vaddr),
                Err(e) => !translate_ok(self.pages@, self.token, token, vaddr, size, write) && e
                    == SysError::AddressFault,
            },
    {
        if token != self.token {
            return Err(SysError::AddressFault);
        }
        if size == 0 {
            return Err(SysError::AddressFault);
        }
        let off = vaddr % PAGE_SIZE;
        if size > PAGE_SIZE - off {
            return Err(SysError::AddressFault);
        }
        let vpn = vaddr / PAGE_SIZE;
        match self.find(vpn) {
            None => Err(SysError::AddressFault),
            Some(i) => {
                let e = self.pages[i];
                proof {
                    lemma_entry_unique(self.pages@, self.next_ppn as int, i as int);
                }
                let bit = if write {
                    PORT_WRITE
                } else {
                    PORT_READ
                };
                if e.perm & bit == 0 {
                    Err(SysError::AddressFault)
                } else {
                    proof {
                        lemma_translate_in_frame(
                            self.pages@,
                            self.next_ppn as int,
                            self.token,
                            token,
                            vaddr,
                            size,
                            write,
                        );
                    }
                    Ok(e.ppn * PAGE_SIZE + off)
                }
            },
        }
    }

    /// Maps the byte range `[start, start + len)` with permission bits
    /// `port`, appending one entry per page, each backed by a fresh frame.
    /// Validation comes first and a failed request changes nothing: no
    /// mapping is ever partially applied. A zero-length request is a no-op
    /// success once its shape (alignment, permission bits) is checked, for
    /// mmap and munmap alike.
    pub fn mmap(&mut self, start: usize, len: usize, port: usize) -> (r: Result<(), SysError>)
        requires
            old(self).wf(),
        ensures
            final(self).wf(),
            final(self).token == old(self).token,
            r == match mmap_check_s(
                old(self).pages@,
                old(self).next_ppn as int,
                start,
                len,
                port,
            ) {
                None => Ok::<(), SysError>(()),
                Some(e) => Err::<(), SysError>(e),
            },
            final(self).pages@ == pages_after_mmap_s(
                old(self).pages@,
                old(self).next_ppn as int,
                start,
                len,
                port,
            ),
            final(self).next_ppn as int == next_after_mmap_s(
                old(self).pages@,
                old(self).next_ppn as int,
                start,
                len,
                port,
            ),
    {
        if start % PAGE_SIZE != 0 {
            return Err(SysError::InvalidArgument);
        }
        if port > PORT_MASK {
            return Err(SysError::InvalidArgument);
        }
        if len == 0 {
            return Ok(());
        }
        if len - 1 > usize::MAX - start {
            return Err(SysError::InvalidArgument);
        }
        let n = (len - 1) / PAGE_SIZE + 1;
        proof {
            lemma_span_bounds(start, len);
        }
        if n > MAX_PPN - self.next_ppn {
            return Err(SysError::ResourceConflict);
        }
        let svpn = start / PAGE_SIZE;
        let mut v: usize = 0;
        while v < n
            invariant
                v <= n,
                self == old(self),
                old(self).wf(),
                start % PAGE_SIZE == 0,
                port <= PORT_MASK,
                0 < len,
                len - 1 <= usize::MAX - start,
                n == page_span(len as int),
                self.next_ppn as int + n <= MAX_PPN,
                svpn == start / PAGE_SIZE,
                svpn + n - 1 <= MAX_PPN,
                forall|u: int| svpn <= u < svpn + v ==> !vpn_mapped(self.pages@, u),
            decreases n - v,
        {
            match self.find(svpn + v) {
                Some(_) => {
                    proof {
                        assert(vpn_mapped(self.pages@, (svpn + v) as int));
                        assert(!range_free(self.pages@, svpn as int, n as int));
                    }
                    return Err(SysError::ResourceConflict);
                },
                None => {},
            }
            v += 1;
        }
        let ghost base_pages = self.pages@;
        let ghost base_ppn = self.next_ppn as int;
        let mut i: usize = 0;
        while i < n
            invariant
                i <= n,
                base_pages == old(self).pages@,
                base_ppn == old(self).next_ppn as int,
                old(self).wf(),
                start % PAGE_SIZE == 0,
                port <= PORT_MASK,
                0 < len,
                len - 1 <= usize::MAX - start,
                n == page_span(len as int),
                svpn == start / PAGE_SIZE,
                svpn + n - 1 <= MAX_PPN,
                base_ppn + n <= MAX_PPN,
                range_free(base_pages, svpn as int, n as int),
                self.token == old(self).token,
                self.pages@ == base_pages + new_entries(svpn as int, base_ppn, i as int, port),
                self.next_ppn as int == base_ppn + i,
            decreases n - i,
        {
            self.pages.push(PageEntry { vpn: svpn + i, ppn: self.next_ppn, perm: port });
            self.next_ppn = self.next_ppn + 1;
            i += 1;
            proof {
                assert(self.pages@ =~= base_pages + new_entries(
                    svpn as int,
                    base_ppn,
                    i as int,
                    port,
                ));
            }
        }
        proof {
            let fresh = new_entries(svpn as int, base_ppn, n as int, port);
            let all = base_pages + fresh;
            assert forall|a: int, b: int| 0 <= a < b < all.len() implies (#[trigger] all[a]).vpn
                != (#[trigger] all[b]).vpn by {
                let base_len = base_pages.len() as int;
                if b < base_len {
                    assert(base_pages[a].vpn != base_pages[b].vpn);
                } else if a >= base_len {
                    assert(all[a].vpn == svpn + (a - base_len));
                    assert(all[b].vpn == svpn + (b - base_len));
                } else {
                    let bv = all[b].vpn as int;
                    assert(svpn <= bv < svpn + n);
                    assert(!vpn_mapped(base_pages, bv));
                    assert(base_pages[a].vpn != bv);
                }
            }
        }
        Ok(())
    }

    /// Unmaps the byte range `[start, start + len)`. The range must be fully
    /// mapped: partial coverage is a failure, and a failed request changes
    /// nothing. A zero-length request is a no-op success once its alignment
    /// is checked, the same policy as for mmap.
    pub fn munmap(&mut self, start: usize, len: usize) -> (r: Result<(), SysError>)
        requires
            old(self).wf(),
        ensures
            final(self).wf(),
            final(self).token == old(self).token,
            final(self).next_ppn == old(self).next_ppn,
            r == match munmap_check_s(old(self).pages@, start, len) {
                None => Ok::<(), SysError>(()),
                Some(e) => Err::<(), SysError>(e),
            },
            final(self).pages@ == pages_after_munmap_s(old(self).pages@, start, len),
    {
        if start % PAGE_SIZE != 0 {
            return Err(SysError::InvalidArgument);
        }
        if len == 0 {
            return Ok(());
        }
        if len - 1 > usize::MAX - start {
            return Err(SysError::InvalidArgument);
        }
        let n = (len - 1) / PAGE_SIZE + 1;
        proof {
            lemma_span_bounds(start, len);
        }
        let svpn = start / PAGE_SIZE;
        let mut v: usize = 0;
        while v < n
            invariant
                v <= n,
                self == old(self),
                old(self).wf(),
                start % PAGE_SIZE == 0,
                0 < len,
                len - 1 <= usize::MAX - start,
                n == page_span(len as int),
                svpn == start / PAGE_SIZE,
                svpn + n - 1 <= MAX_PPN,
                forall|u: int| svpn <= u < svpn + v ==> vpn_mapped(self.pages@, u),
            decreases n - v,
        {
            match self.find(svpn + v) {
                None => {
                    proof {
                        assert(!vpn_mapped(self.pages@, (svpn + v) as int));
                        assert(!range_mapped(self.pages@, svpn as int, n as int));
                    }
                    return Err(SysError::ResourceConflict);
                },
                Some(_) => {},
            }
            v += 1;
        }
        let ghost pred = outside_range(svpn as int, n as int);
        let mut kept: Vec<PageEntry> = Vec::new();
        let mut i: usize = 0;
        proof {
            reveal(Seq::filter);
            assert(self.pages@.take(0).filter(pred) =~= Seq::<PageEntry>::empty());
        }
        while i < self.pages.len()
            invariant
                i <= self.pages@.len(),
                self == old(self),
                old(self).wf(),
                start % PAGE_SIZE == 0,
                0 < len,
                len - 1 <= usize::MAX - start,
                n == page_span(len as int),
                svpn == start / PAGE_SIZE,
                svpn + n - 1 <= MAX_PPN,
                range_mapped(self.pages@, svpn as int, n as int),
                pred == outside_range(svpn as int, n as int),
                kept@ == self.pages@.take(i as int).filter(pred),
            decreases self.pages@.len() - i,
        {
            let p = self.pages[i];
            if p.vpn < svpn || p.vpn >= svpn + n {
                kept.push(p);
            }
            proof {
                reveal(Seq::filter);
                let t1 = self.pages@.take(i as int + 1);
                assert(t1.drop_last() =~= self.pages@.take(i as int));
                assert(t1.last() == p);
                assert(kept@ == t1.filter(pred));
            }
            i += 1;
        }
        proof {
            assert(self.pages@.take(self.pages@.len() as int) =~= self.pages@);
            lemma_filter_preserves_wf(self.pages@, self.next_ppn as int, pred);
        }
        self.pages = kept;
        Ok(())
    }
}

} // verus!
