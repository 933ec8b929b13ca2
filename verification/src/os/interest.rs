//! The descriptors that one wait watches, each with its directions.

use vstd::prelude::*;

verus! {

/// What a wait watches a descriptor for.
#[derive(Debug, Clone, Copy, PartialEq, Eq, Structural)]
pub struct FdInterest {
    /// The descriptor.
    pub fd: i32,
    /// Whether readability matters.
    pub read: bool,
    /// Whether writability matters.
    pub write: bool,
}

/// `i` is the first interest in that descriptor.
pub open spec fn is_first_for(interests: Seq<FdInterest>, fd: i32, i: int) -> bool {
    &&& 0 <= i < interests.len()
    &&& interests[i].fd == fd
    &&& forall|j: int| 0 <= j < i ==> (#[trigger] interests[j]).fd != fd
}

/// Whether some interest is in that descriptor.
pub open spec fn watches(interests: Seq<FdInterest>, fd: i32) -> bool {
    exists|i: int| 0 <= i < interests.len() && (#[trigger] interests[i]).fd == fd
}

/// No descriptor occurs twice.
pub open spec fn distinct_fds(interests: Seq<FdInterest>) -> bool {
    forall|i: int, j: int|
        0 <= i < j < interests.len() ==> (#[trigger] interests[i]).fd != (
        #[trigger] interests[j]).fd
}

/// The interests with one more: joined to the one in the same descriptor, or
/// behind the others.
pub open spec fn with_interest(interests: Seq<FdInterest>, x: FdInterest) -> Seq<FdInterest> {
    if watches(interests, x.fd) {
        let i = choose|i: int| is_first_for(interests, x.fd, i);
        interests.update(
            i,
            FdInterest {
                fd: x.fd,
                read: interests[i].read || x.read,
                write: interests[i].write || x.write,
            },
        )
    } else {
        interests.push(x)
    }
}

/// The interests after those in the readability of `fds`.
pub open spec fn with_reads(interests: Seq<FdInterest>, fds: Seq<i32>) -> Seq<FdInterest>
    decreases fds.len(),
{
    if fds.len() == 0 {
        interests
    } else {
        with_interest(
            with_reads(interests, fds.drop_last()),
            FdInterest { fd: fds.last(), read: true, write: false },
        )
    }
}

/// The interests after those in the writability of `fds`.
pub open spec fn with_writes(interests: Seq<FdInterest>, fds: Seq<i32>) -> Seq<FdInterest>
    decreases fds.len(),
{
    if fds.len() == 0 {
        interests
    } else {
        with_interest(
            with_writes(interests, fds.drop_last()),
            FdInterest { fd: fds.last(), read: false, write: true },
        )
    }
}

/// The interests of a wait for the readability of some descriptors and the
/// writability of others.
pub open spec fn merged(read_fds: Seq<i32>, write_fds: Seq<i32>) -> Seq<FdInterest> {
    with_writes(with_reads(Seq::empty(), read_fds), write_fds)
}

proof fn lemma_watched_has_first(interests: Seq<FdInterest>, fd: i32, n: int)
    requires
        0 <= n < interests.len(),
        interests[n].fd == fd,
    ensures
        exists|i: int| is_first_for(interests, fd, i),
    decreases n,
{
    if forall|j: int| 0 <= j < n ==> (#[trigger] interests[j]).fd != fd {
        assert(is_first_for(interests, fd, n));
    } else {
        let j = choose|j: int| 0 <= j < n && (#[trigger] interests[j]).fd == fd;
        lemma_watched_has_first(interests, fd, j);
    }
}

proof fn lemma_first_is_unique(interests: Seq<FdInterest>, fd: i32, i: int, j: int)
    requires
        is_first_for(interests, fd, i),
        is_first_for(interests, fd, j),
    ensures
        i == j,
{
    if i < j {
        assert(interests[i].fd != fd);
    } else if j < i {
        assert(interests[j].fd != fd);
    }
}

/// Adds an interest to those of a wait.
pub fn add_interest(interests: &mut Vec<FdInterest>, fd: i32, read: bool, write: bool)
    ensures
        final(interests)@ == with_interest(old(interests)@, FdInterest { fd, read, write }),
{
    let mut i: usize = 0;
    while i < interests.len() && interests[i].fd != fd
        invariant
            i <= interests.len(),
            interests@ == old(interests)@,
            forall|j: int| 0 <= j < i ==> (#[trigger] interests@[j]).fd != fd,
        decreases interests.len() - i,
    {
        i = i + 1;
    }
    if i < interests.len() {
        let before = interests[i];
        proof {
            let all = old(interests)@;
            assert(is_first_for(all, fd, i as int));
            let k = choose|k: int| is_first_for(all, fd, k);
            lemma_first_is_unique(all, fd, i as int, k);
            assert(watches(all, fd));
        }
        interests.set(
            i,
            FdInterest { fd, read: before.read || read, write: before.write || write },
        );
    } else {
        assert(!watches(old(interests)@, fd));
        interests.push(FdInterest { fd, read, write });
    }
}

/// Joins the descriptors to watch, each once, with the directions asked for.
pub fn merge_interests(read_fds: &[i32], write_fds: &[i32]) -> (interests: Vec<FdInterest>)
    ensures
        interests@ == merged(read_fds@, write_fds@),
{
    let mut interests: Vec<FdInterest> = Vec::new();
    let mut i: usize = 0;
    assert(read_fds@.take(0) =~= Seq::empty());
    while i < read_fds.len()
        invariant
            i <= read_fds.len(),
            interests@ == with_reads(Seq::empty(), read_fds@.take(i as int)),
        decreases read_fds.len() - i,
    {
        add_interest(&mut interests, read_fds[i], true, false);
        i = i + 1;
        assert(read_fds@.take(i as int).drop_last() =~= read_fds@.take(i - 1));
    }
    assert(read_fds@.take(i as int) =~= read_fds@);
    let ghost reads = interests@;
    let mut j: usize = 0;
    assert(write_fds@.take(0) =~= Seq::empty());
    while j < write_fds.len()
        invariant
            j <= write_fds.len(),
            interests@ == with_writes(reads, write_fds@.take(j as int)),
        decreases write_fds.len() - j,
    {
        add_interest(&mut interests, write_fds[j], false, true);
        j = j + 1;
        assert(write_fds@.take(j as int).drop_last() =~= write_fds@.take(j - 1));
    }
    assert(write_fds@.take(j as int) =~= write_fds@);
    interests
}

/// Whether some interest is in that descriptor.
pub fn contains_interest(interests: &[FdInterest], fd: i32) -> (found: bool)
    ensures
        found == watches(interests@, fd),
{
    let mut i: usize = 0;
    while i < interests.len()
        invariant
            i <= interests.len(),
            forall|j: int| 0 <= j < i ==> (#[trigger] interests@[j]).fd != fd,
        decreases interests.len() - i,
    {
        if interests[i].fd == fd {
            assert(interests@[i as int].fd == fd);
            return true;
        }
        i = i + 1;
    }
    false
}

/// What the interests say of one descriptor: whether it is read, and written.
pub open spec fn reads(interests: Seq<FdInterest>, fd: i32) -> bool {
    exists|i: int|
        0 <= i < interests.len() && (#[trigger] interests[i]).fd == fd && interests[i].read
}

pub open spec fn writes(interests: Seq<FdInterest>, fd: i32) -> bool {
    exists|i: int|
        0 <= i < interests.len() && (#[trigger] interests[i]).fd == fd && interests[i].write
}

proof fn lemma_with_interest(interests: Seq<FdInterest>, x: FdInterest, fd: i32)
    requires
        distinct_fds(interests),
    ensures
        distinct_fds(with_interest(interests, x)),
        watches(with_interest(interests, x), fd) <==> watches(interests, fd) || fd == x.fd,
        reads(with_interest(interests, x), fd) <==> reads(interests, fd) || (fd == x.fd && x.read),
        writes(with_interest(interests, x), fd) <==> writes(interests, fd) || (fd == x.fd
            && x.write),
{
    let after = with_interest(interests, x);
    if watches(interests, x.fd) {
        let n = choose|n: int| 0 <= n < interests.len() && (#[trigger] interests[n]).fd == x.fd;
        lemma_watched_has_first(interests, x.fd, n);
        let i = choose|i: int| is_first_for(interests, x.fd, i);
        assert(is_first_for(interests, x.fd, i));
        assert forall|k: int| 0 <= k < after.len() implies (#[trigger] after[k]).fd
            == interests[k].fd by {}
        assert(after[i].fd == x.fd);
        assert forall|k: int| 0 <= k < interests.len() && k != i implies (
        #[trigger] interests[k]).fd != x.fd by {
            if k < i {
                assert(interests[k].fd != interests[i].fd);
            } else {
                assert(interests[i].fd != interests[k].fd);
            }
        }
        if watches(interests, fd) {
            let k = choose|k: int| 0 <= k < interests.len() && (#[trigger] interests[k]).fd == fd;
            assert(after[k].fd == fd);
        }
        if watches(after, fd) {
            let k = choose|k: int| 0 <= k < after.len() && (#[trigger] after[k]).fd == fd;
            assert(interests[k].fd == fd);
        }
        if reads(interests, fd) {
            let k = choose|k: int|
                0 <= k < interests.len() && (#[trigger] interests[k]).fd == fd && interests[k].read;
            assert(after[k].fd == fd && after[k].read);
        }
        if reads(after, fd) {
            let k = choose|k: int|
                0 <= k < after.len() && (#[trigger] after[k]).fd == fd && after[k].read;
            assert(interests[k].fd == fd);
        }
        if writes(interests, fd) {
            let k = choose|k: int|
                0 <= k < interests.len() && (#[trigger] interests[k]).fd == fd
                    && interests[k].write;
            assert(after[k].fd == fd && after[k].write);
        }
        if writes(after, fd) {
            let k = choose|k: int|
                0 <= k < after.len() && (#[trigger] after[k]).fd == fd && after[k].write;
            assert(interests[k].fd == fd);
        }
        assert forall|a: int, b: int| 0 <= a < b < after.len() implies (#[trigger] after[a]).fd
            != (#[trigger] after[b]).fd by {
            assert(interests[a].fd != interests[b].fd);
        }
    } else {
        let last = interests.len() as int;
        assert(after[last] == x);
        assert forall|k: int| 0 <= k < interests.len() implies after[k]
            == #[trigger] interests[k] by {}
        if watches(interests, fd) {
            let k = choose|k: int| 0 <= k < interests.len() && (#[trigger] interests[k]).fd == fd;
            assert(after[k].fd == fd);
        }
        if watches(after, fd) {
            let k = choose|k: int| 0 <= k < after.len() && (#[trigger] after[k]).fd == fd;
            if k < last {
                assert(interests[k].fd == fd);
            }
        }
        if reads(interests, fd) {
            let k = choose|k: int|
                0 <= k < interests.len() && (#[trigger] interests[k]).fd == fd && interests[k].read;
            assert(after[k].fd == fd && after[k].read);
        }
        if reads(after, fd) {
            let k = choose|k: int|
                0 <= k < after.len() && (#[trigger] after[k]).fd == fd && after[k].read;
            if k < last {
                assert(interests[k].fd == fd);
            }
        }
        if writes(interests, fd) {
            let k = choose|k: int|
                0 <= k < interests.len() && (#[trigger] interests[k]).fd == fd
                    && interests[k].write;
            assert(after[k].fd == fd && after[k].write);
        }
        if writes(after, fd) {
            let k = choose|k: int|
                0 <= k < after.len() && (#[trigger] after[k]).fd == fd && after[k].write;
            if k < last {
                assert(interests[k].fd == fd);
            }
        }
        assert forall|a: int, b: int| 0 <= a < b < after.len() implies (#[trigger] after[a]).fd
            != (#[trigger] after[b]).fd by {
            if b < last {
                assert(interests[a].fd != interests[b].fd);
            } else {
                assert(interests[a].fd != x.fd);
            }
        }
    }
}

proof fn lemma_with_reads(interests: Seq<FdInterest>, fds: Seq<i32>, fd: i32)
    requires
        distinct_fds(interests),
    ensures
        distinct_fds(with_reads(interests, fds)),
        watches(with_reads(interests, fds), fd) <==> watches(interests, fd) || fds.contains(fd),
        reads(with_reads(interests, fds), fd) <==> reads(interests, fd) || fds.contains(fd),
        writes(with_reads(interests, fds), fd) <==> writes(interests, fd),
    decreases fds.len(),
{
    if fds.len() > 0 {
        let front = fds.drop_last();
        lemma_with_reads(interests, front, fd);
        lemma_with_interest(
            with_reads(interests, front),
            FdInterest { fd: fds.last(), read: true, write: false },
            fd,
        );
        lemma_contains_last(fds, fd);
    }
}

proof fn lemma_with_writes(interests: Seq<FdInterest>, fds: Seq<i32>, fd: i32)
    requires
        distinct_fds(interests),
    ensures
        distinct_fds(with_writes(interests, fds)),
        watches(with_writes(interests, fds), fd) <==> watches(interests, fd) || fds.contains(fd),
        reads(with_writes(interests, fds), fd) <==> reads(interests, fd),
        writes(with_writes(interests, fds), fd) <==> writes(interests, fd) || fds.contains(fd),
    decreases fds.len(),
{
    if fds.len() > 0 {
        let front = fds.drop_last();
        lemma_with_writes(interests, front, fd);
        lemma_with_interest(
            with_writes(interests, front),
            FdInterest { fd: fds.last(), read: false, write: true },
            fd,
        );
        lemma_contains_last(fds, fd);
    }
}

proof fn lemma_contains_last(fds: Seq<i32>, fd: i32)
    requires
        fds.len() > 0,
    ensures
        fds.contains(fd) <==> fds.drop_last().contains(fd) || fd == fds.last(),
{
    if fds.contains(fd) {
        let i = choose|i: int| 0 <= i < fds.len() && fds[i] == fd;
        if i < fds.len() - 1 {
            assert(fds.drop_last()[i] == fd);
        }
    }
    if fds.drop_last().contains(fd) {
        let i = choose|i: int| 0 <= i < fds.drop_last().len() && fds.drop_last()[i] == fd;
        assert(fds[i] == fd);
    }
    assert(fds[fds.len() - 1] == fds.last());
}

/// A wait watches each descriptor asked for once, in the directions asked for,
/// and no other.
pub proof fn merged_interests_are_those_asked_for(read_fds: Seq<i32>, write_fds: Seq<i32>, fd: i32)
    ensures
        distinct_fds(merged(read_fds, write_fds)),
        watches(merged(read_fds, write_fds), fd) <==> read_fds.contains(fd) || write_fds.contains(
            fd,
        ),
        reads(merged(read_fds, write_fds), fd) <==> read_fds.contains(fd),
        writes(merged(read_fds, write_fds), fd) <==> write_fds.contains(fd),
{
    let none = Seq::<FdInterest>::empty();
    lemma_with_reads(none, read_fds, fd);
    lemma_with_writes(with_reads(none, read_fds), write_fds, fd);
}

/// Each descriptor that is asked for has one interest, in reads exactly where reads were
/// asked for and in writes exactly where writes were; there is no other interest.
pub proof fn each_descriptor_has_one_interest(read_fds: Seq<i32>, write_fds: Seq<i32>, fd: i32)
    ensures
        ({
            let interests = merged(read_fds, write_fds);
            &&& forall|i: int|
                0 <= i < interests.len() && (#[trigger] interests[i]).fd == fd ==> (
                interests[i].read <==> read_fds.contains(fd)) && (interests[i].write
                    <==> write_fds.contains(fd)) && (read_fds.contains(fd)
                    || write_fds.contains(fd))
            &&& read_fds.contains(fd) || write_fds.contains(fd) ==> exists|i: int|
                0 <= i < interests.len() && (#[trigger] interests[i]).fd == fd
            &&& forall|i: int, j: int|
                0 <= i < interests.len() && 0 <= j < interests.len() && (
                #[trigger] interests[i]).fd == fd && (#[trigger] interests[j]).fd == fd ==> i == j
        }),
{
    merged_interests_are_those_asked_for(read_fds, write_fds, fd);
    let interests = merged(read_fds, write_fds);
    assert forall|i: int| 0 <= i < interests.len() && (#[trigger] interests[i]).fd == fd implies (
    interests[i].read <==> read_fds.contains(fd)) && (interests[i].write <==> write_fds.contains(
        fd,
    )) && (read_fds.contains(fd) || write_fds.contains(fd)) by {
        assert(watches(interests, fd));
        if reads(interests, fd) {
            let k = choose|k: int|
                0 <= k < interests.len() && (#[trigger] interests[k]).fd == fd && interests[k].read;
            assert(k == i);
        }
        if writes(interests, fd) {
            let k = choose|k: int|
                0 <= k < interests.len() && (#[trigger] interests[k]).fd == fd && interests[k].write;
            assert(k == i);
        }
    }
}

/// A list watches a descriptor, reads it or writes it exactly where an interest in it says
/// so.
pub proof fn interests_say_what_is_watched(interests: Seq<FdInterest>, x: FdInterest)
    requires
        distinct_fds(interests),
        interests.contains(x),
    ensures
        watches(interests, x.fd),
        reads(interests, x.fd) <==> x.read,
        writes(interests, x.fd) <==> x.write,
        forall|y: FdInterest| #[trigger] interests.contains(y) && y.fd == x.fd ==> y == x,
{
    let i = choose|i: int| 0 <= i < interests.len() && interests[i] == x;
    assert(interests[i].fd == x.fd);
    assert forall|k: int| 0 <= k < interests.len() && (#[trigger] interests[k]).fd == x.fd implies k
        == i by {
        if k < i {
            assert(interests[k].fd != interests[i].fd);
        } else if i < k {
            assert(interests[i].fd != interests[k].fd);
        }
    }
}

/// Interests stand in the order in which their descriptors were first asked for, reads
/// before writes: one that is asked for later moves none of those before it.
pub proof fn interests_keep_the_order_of_asking(
    read_fds: Seq<i32>,
    write_fds: Seq<i32>,
    fd: i32,
)
    ensures
        ({
            let fd_of = |x: FdInterest| x.fd;
            let fds = merged(read_fds, write_fds).map_values(fd_of);
            let readers = merged(read_fds, Seq::empty()).map_values(fd_of);
            &&& fds.is_prefix_of(merged(read_fds, write_fds.push(fd)).map_values(fd_of))
            &&& readers.is_prefix_of(fds)
            &&& readers.is_prefix_of(merged(read_fds.push(fd), Seq::empty()).map_values(fd_of))
        }),
    decreases write_fds.len(),
{
    let fd_of = |x: FdInterest| x.fd;
    let write = FdInterest { fd, read: false, write: true };
    let read = FdInterest { fd, read: true, write: false };
    assert(write_fds.push(fd).drop_last() =~= write_fds);
    assert(read_fds.push(fd).drop_last() =~= read_fds);
    lemma_interest_moves_none(merged(read_fds, write_fds), write);
    lemma_interest_moves_none(merged(read_fds, Seq::empty()), read);
    if write_fds.len() > 0 {
        let front = write_fds.drop_last();
        interests_keep_the_order_of_asking(read_fds, front, write_fds.last());
        assert(front.push(write_fds.last()) =~= write_fds);
        let readers = merged(read_fds, Seq::empty()).map_values(fd_of);
        let before = merged(read_fds, front).map_values(fd_of);
        let fds = merged(read_fds, write_fds).map_values(fd_of);
        assert(fds.take(readers.len() as int) =~= before.take(readers.len() as int));
    } else {
        assert(write_fds =~= Seq::<i32>::empty());
    }
}

proof fn lemma_interest_moves_none(interests: Seq<FdInterest>, x: FdInterest)
    ensures
        interests.map_values(|y: FdInterest| y.fd).is_prefix_of(
            with_interest(interests, x).map_values(|y: FdInterest| y.fd),
        ),
{
    let before = interests.map_values(|y: FdInterest| y.fd);
    let after = with_interest(interests, x).map_values(|y: FdInterest| y.fd);
    if watches(interests, x.fd) {
        let n = choose|n: int| 0 <= n < interests.len() && (#[trigger] interests[n]).fd == x.fd;
        lemma_watched_has_first(interests, x.fd, n);
        let i = choose|i: int| is_first_for(interests, x.fd, i);
        assert(is_first_for(interests, x.fd, i));
        assert(after =~= before);
    }
    assert(after.take(before.len() as int) =~= before);
}

} // verus!
