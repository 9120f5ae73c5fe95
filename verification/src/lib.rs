//! Building blocks of a small kernel: identifier allocation, page
//! numbering, address-space layout, schedulers, a block cache and the
//! bookkeeping around them.

pub mod concurrency;
pub mod cpu;
pub mod file_system;
pub mod intervene;
pub mod memory;
pub mod peripheral;
pub mod runtime;

use vstd::prelude::*;

verus! {

/// The text that `str::to_uppercase` gives for `s`: each character's
/// uppercase mapping by Unicode's rules, which no locale changes.
pub uninterp spec fn uppercase(s: Seq<char>) -> Seq<char>;

/// `str::to_uppercase`: the upper-case text of `s` (the named
/// `uppercase`).
#[verifier::external_body]
fn to_uppercase(s: &str) -> (r: String)
    ensures
        r@ == uppercase(s@),
{
    s.to_uppercase()
}

/// The title of a module's log banner: `[NAME MODULE]` with the module's
/// name in upper case.
pub open spec fn banner_title(name: Seq<char>) -> Seq<char> {
    seq!['['] + uppercase(name) + seq![' ', 'M', 'O', 'D', 'U', 'L', 'E', ']']
}

/// The two lines of a module's log banner: the title `[NAME MODULE]` with
/// the module's name in upper case, and a border of one `-` for each byte
/// of the title.
pub fn module_banner(mod_name: &str) -> (r: (String, String))
    ensures
        r.0@ == banner_title(mod_name@),
        r.1@ == Seq::new(vstd::utf8::encode_utf8(r.0@).len(), |i: int| '-'),
{
    proof {
        reveal_strlit("[");
        reveal_strlit(" MODULE]");
        reveal_strlit("-");
    }
    let upper = to_uppercase(mod_name);
    let mut title = String::from_str("[");
    title.append(upper.as_str());
    title.append(" MODULE]");
    assert(title@ =~= banner_title(mod_name@));
    let t = title.as_str();
    let n = t.as_bytes().len();
    assert(n == vstd::utf8::encode_utf8(title@).len());
    let mut border = String::new();
    let mut i: usize = 0;
    while i < n
        invariant
            0 <= i <= n,
            border@ == Seq::new(i as nat, |j: int| '-'),
        decreases n - i,
    {
        proof {
            reveal_strlit("-");
        }
        border.append("-");
        i += 1;
        assert(border@ =~= Seq::new(i as nat, |j: int| '-'));
    }
    (title, border)
}

/// What an [`Allocator`] holds, as mathematical values.
pub ghost struct AllocatorView {
    /// The next fresh identifier.
    pub head: int,
    /// The largest identifier that may be handed out fresh.
    pub tail: int,
    /// Identifiers given back, in the order they were given back.
    pub recycled: Seq<usize>,
}

/// Allocator of recycled identifiers.
///
/// Identifiers are handed out from small to large: the smallest one
/// available, given back or fresh, comes first. Only identifiers that were
/// handed out and are not given back already may be given back.
pub struct Allocator {
    head: usize,
    tail: usize,
    recycled: Vec<usize>,
}

impl View for Allocator {
    type V = AllocatorView;

    closed spec fn view(&self) -> AllocatorView {
        AllocatorView { head: self.head as int, tail: self.tail as int, recycled: self.recycled@ }
    }
}

impl AllocatorView {
    /// Fresh identifiers never run past one beyond `tail`, and every
    /// identifier given back was handed out before (lies below `head`).
    pub open spec fn wf(self) -> bool {
        &&& 0 <= self.head <= self.tail + 1
        &&& self.tail <= usize::MAX
        &&& forall|i: int| 0 <= i < self.recycled.len() ==> #[trigger] self.recycled[i] < self.head
        &&& self.recycled.no_duplicates()
    }

    /// Whether `number` may be given back: it was handed out, and is not
    /// given back already.
    pub open spec fn can_dealloc(self, number: usize) -> bool {
        &&& number < self.head
        &&& !self.recycled.contains(number)
    }

    /// `allocate` can run without overflowing its counter.
    pub open spec fn can_alloc(self) -> bool {
        self.recycled.len() > 0 || self.head < usize::MAX || self.tail < usize::MAX
    }

    /// `allocate` hands out an identifier (rather than failing).
    pub open spec fn has_free(self) -> bool {
        self.recycled.len() > 0 || self.head <= self.tail
    }

    /// The identifier `allocate` hands out next, when it succeeds: the
    /// smallest one given back, or else the next fresh one.
    pub open spec fn next_id(self) -> int {
        if self.recycled.len() > 0 {
            self.recycled[first_min_index(self.recycled)] as int
        } else {
            self.head
        }
    }

    /// The state and result of `allocate` on a state `self`.
    pub open spec fn alloc_post(self, after: AllocatorView, r: Result<usize, ()>) -> bool {
        if self.recycled.len() > 0 {
            &&& r == Ok::<usize, ()>(self.recycled[first_min_index(self.recycled)])
            &&& after == AllocatorView {
                recycled: self.recycled.remove(first_min_index(self.recycled)),
                ..self
            }
        } else if self.head <= self.tail {
            &&& r == Ok::<usize, ()>(self.head as usize)
            &&& after == AllocatorView { head: self.head + 1, ..self }
        } else {
            &&& r is Err
            &&& after == self
        }
    }

    /// The state and result of `alloc_contig(n)` on a state `self`.
    pub open spec fn alloc_contig_post(self, n: int, after: AllocatorView, r: Result<usize, ()>) -> bool {
        if self.head + n - 1 <= self.tail {
            &&& r == Ok::<usize, ()>(self.head as usize)
            &&& after == AllocatorView { head: self.head + n, ..self }
        } else {
            &&& r is Err
            &&& after == self
        }
    }

    /// The state after `dealloc(number)` on a state `self`.
    pub open spec fn dealloc_post(self, number: usize, after: AllocatorView) -> bool {
        after == AllocatorView { recycled: self.recycled.push(number), ..self }
    }
}

/// Index `i` holds the smallest value of `s`, and no earlier index does.
pub open spec fn is_first_min(s: Seq<usize>, i: int) -> bool {
    &&& 0 <= i < s.len()
    &&& forall|j: int| 0 <= j < s.len() ==> s[i] <= #[trigger] s[j]
    &&& forall|j: int| 0 <= j < i ==> s[i] < #[trigger] s[j]
}

/// The first index of the smallest value of a non-empty `s`.
pub open spec fn first_min_index(s: Seq<usize>) -> int {
    choose|i: int| is_first_min(s, i)
}

/// The first index of the smallest value is unique, so it is the one
/// `first_min_index` picks.
proof fn lemma_first_min_index(s: Seq<usize>, i: int)
    requires
        is_first_min(s, i),
    ensures
        first_min_index(s) == i,
{
    let k = first_min_index(s);
    assert(is_first_min(s, k));
    if k < i {
        assert(s[i] < s[k]);
        assert(s[k] <= s[i]);
    } else if i < k {
        assert(s[k] < s[i]);
        assert(s[i] <= s[k]);
    }
}

impl Clone for Allocator {
    /// An allocator in the same state.
    fn clone(&self) -> (r: Self)
        ensures
            r@ == self@,
    {
        proof {
            use_type_invariant(self);
        }
        let mut recycled: Vec<usize> = Vec::new();
        let mut i: usize = 0;
        while i < self.recycled.len()
            invariant
                0 <= i <= self.recycled@.len(),
                recycled@ == self.recycled@.take(i as int),
            decreases self.recycled@.len() - i,
        {
            recycled.push(self.recycled[i]);
            i += 1;
            proof {
                assert(recycled@ =~= self.recycled@.take(i as int));
            }
        }
        proof {
            assert(recycled@ =~= self.recycled@);
        }
        Allocator { head: self.head, tail: self.tail, recycled }
    }
}

impl Allocator {
    /// Fresh identifiers never run past one beyond `tail`.
    #[verifier::type_invariant]
    pub closed spec fn inv(self) -> bool {
        self@.wf()
    }

    /// The next fresh identifier.
    pub fn head(&self) -> (r: usize)
        ensures
            r == self@.head,
    {
        self.head
    }

    /// The largest identifier that may be handed out fresh.
    pub fn tail(&self) -> (r: usize)
        ensures
            r == self@.tail,
    {
        self.tail
    }

    /// The identifier that `allocate` hands out next, when it succeeds.
    pub fn next_id(&self) -> (r: usize)
        ensures
            r == self@.next_id(),
    {
        if self.recycled.len() > 0 {
            let m = self.min_index();
            self.recycled[m]
        } else {
            self.head
        }
    }

    /// The first index of the smallest identifier given back.
    fn min_index(&self) -> (r: usize)
        requires
            self@.recycled.len() > 0,
        ensures
            r == first_min_index(self@.recycled),
            is_first_min(self@.recycled, r as int),
    {
        let mut m: usize = 0;
        let mut k: usize = 1;
        while k < self.recycled.len()
            invariant
                self@.recycled == self.recycled@,
                0 <= m < k <= self.recycled@.len(),
                forall|j: int| 0 <= j < k ==> self.recycled@[m as int] <= #[trigger] self.recycled@[j],
                forall|j: int| 0 <= j < m ==> self.recycled@[m as int] < #[trigger] self.recycled@[j],
            decreases self.recycled@.len() - k,
        {
            if self.recycled[k] < self.recycled[m] {
                m = k;
            }
            k += 1;
        }
        proof {
            lemma_first_min_index(self@.recycled, m as int);
        }
        m
    }

    /// The number of identifiers given back and not yet handed out again.
    pub fn recycled_len(&self) -> (r: usize)
        ensures
            r == self@.recycled.len(),
    {
        self.recycled.len()
    }

    /// Whether `number` may be given back: it was handed out and is not
    /// given back already.
    pub fn can_dealloc(&self, number: usize) -> (r: bool)
        ensures
            r == self@.can_dealloc(number),
    {
        if number >= self.head {
            return false;
        }
        let mut i: usize = 0;
        while i < self.recycled.len()
            invariant
                0 <= i <= self.recycled@.len(),
                forall|j: int| 0 <= j < i ==> #[trigger] self.recycled@[j] != number,
            decreases self.recycled@.len() - i,
        {
            if self.recycled[i] == number {
                assert(self@.recycled[i as int] == number);
                return false;
            }
            i += 1;
        }
        true
    }

    /// Whether `allocate` hands out an identifier.
    pub fn has_free(&self) -> (r: bool)
        ensures
            r == self@.has_free(),
    {
        self.recycled.len() > 0 || self.head <= self.tail
    }

    /// Whether `allocate` can run without overflowing its counter.
    pub fn can_alloc(&self) -> (r: bool)
        ensures
            r == self@.can_alloc(),
    {
        self.recycled.len() > 0 || self.head < usize::MAX || self.tail < usize::MAX
    }

    /// An allocator of the identifiers `head..=tail`; `Err` when `head > tail`.
    pub fn new(head: usize, tail: usize) -> (r: Result<Self, ()>)
        ensures
            r is Err <==> head > tail,
            r matches Ok(a) ==> a@ == (AllocatorView {
                head: head as int,
                tail: tail as int,
                recycled: Seq::empty(),
            }),
    {
        if head > tail {
            return Err(());
        } else {
            Ok(Self { head, tail, recycled: Vec::new() })
        }
    }

    /// The smallest identifier given back, or else the next fresh one (so
    /// the smallest identifier available); `Err` when neither is left.
    pub fn allocate(&mut self) -> (r: Result<usize, ()>)
        requires
            old(self)@.can_alloc(),
        ensures
            final(self)@.wf(),
            old(self)@.alloc_post(final(self)@, r),
            r is Ok <==> old(self)@.has_free(),
    {
        proof {
            use_type_invariant(&*self);
        }
        if self.recycled.len() > 0 {
            let m = self.min_index();
            let mut recycled: Vec<usize> = Vec::new();
            std::mem::swap(&mut recycled, &mut self.recycled);
            let ghost before = recycled@;
            let number = recycled.remove(m);
            assert forall|i: int| 0 <= i < recycled@.len() implies #[trigger] recycled@[i]
                < self.head by {
                if i < m {
                    assert(recycled@[i] == before[i]);
                } else {
                    assert(recycled@[i] == before[i + 1]);
                }
            }
            self.recycled = recycled;
            Ok(number)
        } else {
            if self.head <= self.tail {
                let number = self.head;
                self.head += 1;
                Ok(number)
            } else {
                Err(())
            }
        }
    }

    /// Allocates `n` contiguous fresh identifiers and returns the first;
    /// `Err` when fewer than `n` fresh identifiers are left.
    pub fn alloc_contig(&mut self, n: usize) -> (r: Result<usize, ()>)
        requires
            1 <= old(self)@.head + n <= usize::MAX,
        ensures
            final(self)@.wf(),
            old(self)@.alloc_contig_post(n as int, final(self)@, r),
            r is Ok <==> old(self)@.head + n - 1 <= old(self)@.tail,
    {
        proof {
            use_type_invariant(&*self);
        }
        if self.head + n - 1 <= self.tail {
            let base = self.head;
            assert forall|i: int| 0 <= i < self.recycled@.len() implies #[trigger] self.recycled@[i]
                < self.head + n by {
                assert(self@.recycled[i] < self@.head);
            }
            self.head += n;
            Ok(base)
        } else {
            Err(())
        }
    }

    /// Gives `number` back, to be handed out again; it must have been
    /// handed out and not given back already.
    pub fn dealloc(&mut self, number: usize)
        requires
            old(self)@.can_dealloc(number),
        ensures
            final(self)@.wf(),
            old(self)@.dealloc_post(number, final(self)@),
    {
        proof {
            use_type_invariant(&*self);
        }
        let mut recycled: Vec<usize> = Vec::new();
        std::mem::swap(&mut recycled, &mut self.recycled);
        recycled.push(number);
        self.recycled = recycled;
    }
}

/// Giving an identifier back to an allocator with nothing given back makes
/// it the next one handed out, and handing it out leaves the allocator as it
/// was before it was given back.
pub proof fn lemma_dealloc_then_allocate(a: AllocatorView, b: AllocatorView, c: AllocatorView, number: usize, r: Result<usize, ()>)
    requires
        a.recycled.len() == 0,
        a.dealloc_post(number, b),
        b.alloc_post(c, r),
    ensures
        r == Ok::<usize, ()>(number),
        c == a,
{
    assert(is_first_min(b.recycled, 0));
    lemma_first_min_index(b.recycled, 0);
    assert(b.recycled.remove(0) =~= a.recycled);
}

/// `allocate` hands out the smallest identifier available: none given back
/// and no fresh one is smaller, and it is no longer available afterwards.
pub proof fn lemma_allocate_smallest(a: AllocatorView, b: AllocatorView, id: usize, x: usize)
    requires
        a.wf(),
        a.alloc_post(b, Ok(id)),
        a.recycled.contains(x) || a.head <= x <= a.tail,
    ensures
        id <= x,
        !b.recycled.contains(id),
        id < b.head,
{
    if a.recycled.len() > 0 {
        let m = first_min_index(a.recycled);
        assert(is_first_min(a.recycled, m)) by {
            lemma_exists_first_min(a.recycled);
        }
        if a.recycled.contains(x) {
            let k = choose|k: int| 0 <= k < a.recycled.len() && a.recycled[k] == x;
            assert(a.recycled[m] <= a.recycled[k]);
        } else {
            assert(a.recycled[m] < a.head);
        }
        if b.recycled.contains(id) {
            let k = choose|k: int| 0 <= k < b.recycled.len() && b.recycled[k] == id;
            if k < m {
                assert(b.recycled[k] == a.recycled[k]);
            } else {
                assert(b.recycled[k] == a.recycled[k + 1]);
                assert(a.recycled[k + 1] == a.recycled[m]);
            }
            assert(false);
        }
    }
}

/// A non-empty sequence has a first index of its smallest value.
pub proof fn lemma_exists_first_min(s: Seq<usize>)
    requires
        s.len() > 0,
    ensures
        is_first_min(s, first_min_index(s)),
    decreases s.len(),
{
    if s.len() == 1 {
        assert(is_first_min(s, 0));
    } else {
        let t = s.drop_last();
        lemma_exists_first_min(t);
        let m = first_min_index(t);
        assert(forall|j: int| 0 <= j < t.len() ==> t[j] == s[j]);
        if s.last() < s[m] {
            assert(is_first_min(s, s.len() - 1));
        } else {
            assert(is_first_min(s, m));
        }
    }
}

/// Over successive allocations from a fresh allocator of `head..=tail`
/// with nothing given back, allocation `k` hands out `head + k` while that
/// is at most `tail`, and fails (leaving the allocator as it is) after.
pub proof fn lemma_successive_fresh(states: Seq<AllocatorView>, results: Seq<Result<usize, ()>>, k: int)
    requires
        states.len() == results.len() + 1,
        states[0].wf(),
        states[0].recycled.len() == 0,
        states[0].tail < usize::MAX,
        forall|i: int| 0 <= i < results.len() ==> #[trigger] states[i].alloc_post(states[i + 1], results[i]),
        0 <= k < results.len(),
    ensures
        states[0].head + k <= states[0].tail ==> results[k] == Ok::<usize, ()>((states[0].head + k) as usize),
        states[0].head + k > states[0].tail ==> results[k] is Err && states[k + 1] == states[k],
    decreases k,
{
    lemma_successive_fresh_state(states, results, k);
}

proof fn lemma_successive_fresh_state(states: Seq<AllocatorView>, results: Seq<Result<usize, ()>>, k: int)
    requires
        states.len() == results.len() + 1,
        states[0].wf(),
        states[0].recycled.len() == 0,
        states[0].tail < usize::MAX,
        forall|i: int| 0 <= i < results.len() ==> #[trigger] states[i].alloc_post(states[i + 1], results[i]),
        0 <= k <= results.len(),
    ensures
        states[k].recycled.len() == 0,
        states[k].tail == states[0].tail,
        states[k].head == if states[0].head + k <= states[0].tail + 1 {
            states[0].head + k
        } else {
            states[0].tail + 1
        },
        k < results.len() && states[0].head + k <= states[0].tail ==> results[k] == Ok::<usize, ()>((states[0].head + k) as usize),
        k < results.len() && states[0].head + k > states[0].tail ==> results[k] is Err && states[k + 1] == states[k],
    decreases k,
{
    if k > 0 {
        lemma_successive_fresh_state(states, results, k - 1);
        let j = k - 1;
        assert(states[j].alloc_post(states[j + 1], results[j]));
    }
    if k < results.len() {
        assert(states[k].alloc_post(states[k + 1], results[k]));
    }
}

/// Fresh identifiers are handed out from small to large: with nothing
/// recycled, two successive allocations give consecutive identifiers.
pub proof fn lemma_fresh_ids_increase(a: AllocatorView, b: AllocatorView, c: AllocatorView, i: usize, j: usize)
    requires
        a.wf(),
        a.recycled.len() == 0,
        a.alloc_post(b, Ok(i)),
        b.alloc_post(c, Ok(j)),
    ensures
        i < j,
        j == i + 1,
{
}

/// A fresh identifier lies in the range the allocator was made with, and
/// so does every identifier of a contiguous block.
pub proof fn lemma_fresh_ids_in_range(
    a: AllocatorView,
    b: AllocatorView,
    i: usize,
    n: int,
    c: AllocatorView,
    base: usize,
)
    requires
        a.wf(),
        a.recycled.len() == 0,
        a.alloc_post(b, Ok(i)),
        n >= 1,
        a.alloc_contig_post(n, c, Ok(base)),
    ensures
        a.head <= i <= a.tail,
        a.head == base,
        base + n - 1 <= a.tail,
{
}

/// A contiguous block and the fresh identifier allocated after it do not
/// overlap: the next fresh identifier follows the block.
pub proof fn lemma_contig_then_fresh(a: AllocatorView, n: int, b: AllocatorView, base: usize, c: AllocatorView, i: usize)
    requires
        a.wf(),
        n >= 1,
        a.alloc_contig_post(n, b, Ok(base)),
        b.recycled.len() == 0,
        b.alloc_post(c, Ok(i)),
    ensures
        i == base + n,
{
}

} // verus!
