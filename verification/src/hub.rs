//! The broadcast hub: the table of subscribed clients and the fan-out
//! of captured lines to their private delivery channels.
//!
//! Each subscriber owns an unbounded delivery channel whose receiving
//! end lives with the client's session.  The hub records, as a ghost
//! log per subscriber, every line its channel accepted, so contracts
//! can say that one broadcast delivers one line to each subscriber, in
//! broadcast order.  A channel that refuses a line (its receiver is
//! gone) has its subscriber pruned by the same broadcast; nothing of
//! that is visible to the other subscribers.

use vstd::prelude::*;
use tokio::sync::mpsc::{UnboundedReceiver, UnboundedSender};

verus! {

/// The sending end of a subscriber's delivery channel, from tokio.
#[verifier::external_type_specification]
#[verifier::external_body]
#[verifier::reject_recursive_types(T)]
pub struct ExUnboundedSender<T>(UnboundedSender<T>);

/// The receiving end of a subscriber's delivery channel, from tokio.
#[verifier::external_type_specification]
#[verifier::external_body]
#[verifier::reject_recursive_types(T)]
pub struct ExUnboundedReceiver<T>(UnboundedReceiver<T>);

/// Relies on `tokio::sync::mpsc::unbounded_channel`: the two ends of
/// one fresh unbounded channel.
#[verifier::external_body]
fn new_delivery_channel() -> (UnboundedSender<String>, UnboundedReceiver<String>) {
    tokio::sync::mpsc::unbounded_channel()
}

/// Relies on tokio's `UnboundedSender::send`: never blocks, and accepts
/// the line unless the receive half is closed (the receiver dropped or
/// explicitly closed).  Whether it accepts depends on the receiver's
/// fate, so nothing more is promised.
#[verifier::external_body]
fn deliver(sender: &UnboundedSender<String>, line: String) -> (ok: bool) {
    sender.send(line).is_ok()
}

/// One registered client: its id, the sending end of its delivery
/// channel, and the ghost log of every line that channel accepted.
struct Subscriber {
    id: u64,
    sender: UnboundedSender<String>,
    delivered: Ghost<Seq<Seq<char>>>,
}

/// `a` is `b` with zero or more elements left out, order kept.
pub open spec fn is_subsequence(a: Seq<u64>, b: Seq<u64>) -> bool
    decreases a.len() + b.len(),
{
    if a.len() == 0 {
        true
    } else if b.len() == 0 {
        false
    } else {
        (a.last() == b.last() && is_subsequence(a.drop_last(), b.drop_last())) || is_subsequence(
            a,
            b.drop_last(),
        )
    }
}

/// The broadcast hub: the subscriber table and the id counter.
pub struct Hub {
    subs: Vec<Subscriber>,
    next_id: u64,
}

impl Hub {
    /// The registered client ids, in table order.
    pub closed spec fn ids(&self) -> Seq<u64> {
        self.subs@.map_values(|s: Subscriber| s.id)
    }

    /// Whether `id` is registered.
    pub open spec fn contains_id(&self, id: u64) -> bool {
        self.ids().contains(id)
    }

    /// Every line the delivery channel of `id` has accepted, oldest
    /// first.
    pub closed spec fn log_of(&self, id: u64) -> Seq<Seq<char>> {
        let i = choose|i: int| 0 <= i < self.subs@.len() && self.subs@[i].id == id;
        self.subs@[i].delivered@
    }

    /// The id the next registration will take.
    pub closed spec fn next_client_id(&self) -> u64 {
        self.next_id
    }

    /// Ids are unique and all below the counter, so no id is ever
    /// reused, even after its client is gone.
    pub closed spec fn wf(&self) -> bool {
        &&& self.ids().no_duplicates()
        &&& forall|i: int|
            0 <= i < self.subs@.len() ==> (#[trigger] self.subs@[i].id) < self.next_id
    }

    /// An empty table; ids start at 1.
    pub fn new() -> (h: Self)
        ensures
            h.wf(),
            h.ids() == Seq::<u64>::empty(),
            h.next_client_id() == 1,
    {
        let h = Hub { subs: Vec::new(), next_id: 1 };
        proof {
            assert(h.ids() =~= Seq::<u64>::empty());
        }
        h
    }

    /// The log of the subscriber at table index `i` is what `log_of`
    /// gives for its id.
    proof fn lemma_log_of_at(&self, i: int)
        requires
            self.wf(),
            0 <= i < self.subs@.len(),
        ensures
            self.log_of(self.subs@[i].id) == self.subs@[i].delivered@,
    {
        let id = self.subs@[i].id;
        assert(self.subs@[i].id == id && 0 <= i < self.subs@.len());
        let c = choose|c: int| 0 <= c < self.subs@.len() && self.subs@[c].id == id;
        assert(self.ids()[c] == self.subs@[c].id);
        assert(self.ids()[i] == self.subs@[i].id);
        if c != i {
            assert(self.ids()[c] == self.ids()[i]);
            assert(false);
        }
    }

    /// Allocate the next id, create a fresh delivery channel, store its
    /// sending end, and hand back the id with the receiving end.  The
    /// id was never in the table before and never will be again once
    /// unregistered.
    pub fn register_client(&mut self) -> (r: (u64, UnboundedReceiver<String>))
        requires
            old(self).wf(),
            old(self).next_client_id() < u64::MAX,
        ensures
            final(self).wf(),
            r.0 == old(self).next_client_id(),
            !old(self).contains_id(r.0),
            final(self).next_client_id() == r.0 + 1,
            final(self).ids() == old(self).ids().push(r.0),
            final(self).log_of(r.0) == Seq::<Seq<char>>::empty(),
            forall|id: u64|
                id != r.0 ==> (#[trigger] final(self).contains_id(id) <==> old(self).contains_id(
                    id,
                )),
            forall|id: u64|
                old(self).contains_id(id) ==> #[trigger] final(self).log_of(id) == old(
                    self,
                ).log_of(id),
    {
        let id = self.next_id;
        self.next_id = self.next_id + 1;
        let (tx, rx) = new_delivery_channel();
        proof {
            if old(self).contains_id(id) {
                let i = choose|i: int|
                    0 <= i < old(self).ids().len() && old(self).ids()[i] == id;
                assert(old(self).subs@[i].id == id);
                assert(false);
            }
        }
        let ghost pre = *self;
        self.subs.push(Subscriber { id, sender: tx, delivered: Ghost(Seq::empty()) });
        proof {
            assert(self.ids() =~= pre.ids().push(id));
            let n = pre.subs@.len() as int;
            self.lemma_log_of_at(n);
            assert forall|other: u64| pre.contains_id(other) implies #[trigger] self.log_of(other)
                == pre.log_of(other) by {
                let i = choose|i: int| 0 <= i < pre.ids().len() && pre.ids()[i] == other;
                assert(pre.subs@[i].id == other);
                pre.lemma_log_of_at(i);
                assert(self.subs@[i].id == other);
                self.lemma_log_of_at(i);
            }
            assert forall|other: u64|
                other != id implies ((#[trigger] self.contains_id(other)) <==> pre.contains_id(
                other,
            )) by {
                if self.contains_id(other) {
                    let i = choose|i: int| 0 <= i < self.ids().len() && self.ids()[i] == other;
                    assert(self.subs@[i].id == other);
                    assert(i < n);
                    assert(pre.ids()[i] == other);
                    assert(pre.contains_id(other));
                }
                if pre.contains_id(other) {
                    let i = choose|i: int| 0 <= i < pre.ids().len() && pre.ids()[i] == other;
                    assert(self.ids()[i] == other);
                    assert(self.contains_id(other));
                }
            }
            assert(pre.ids() == old(self).ids());
        }
        (id, rx)
    }

    /// Remove the entry of `id` if it is present; removing an absent id
    /// is a no-op.  Every other entry, its log, and the table order are
    /// untouched.
    pub fn unregister_client(&mut self, id: u64)
        requires
            old(self).wf(),
        ensures
            final(self).wf(),
            final(self).next_client_id() == old(self).next_client_id(),
            !final(self).contains_id(id),
            final(self).ids() == old(self).ids().remove_value(id),
            forall|other: u64|
                other != id ==> (#[trigger] final(self).contains_id(other) <==> old(
                    self,
                ).contains_id(other)),
            forall|other: u64|
                other != id && old(self).contains_id(other) ==> #[trigger] final(self).log_of(
                    other,
                ) == old(self).log_of(other),
    {
        let mut i: usize = 0;
        let n: usize = self.subs.len();
        while i < n
            invariant
                *self == *old(self),
                old(self).wf(),
                n == self.subs@.len(),
                0 <= i <= n,
                forall|j: int| 0 <= j < i ==> (#[trigger] self.subs@[j].id) != id,
            decreases n - i,
        {
            if self.subs[i].id == id {
                self.subs.remove(i);
                proof {
                    old(self).lemma_unregister_found(*self, id, i as int);
                }
                return ;
            }
            i = i + 1;
        }
        proof {
            let pre = *old(self);
            assert forall|j: int| 0 <= j < pre.ids().len() implies #[trigger] pre.ids()[j]
                != id by {
                assert(pre.ids()[j] == pre.subs@[j].id);
            }
            assert(!pre.ids().contains(id));
            pre.ids().index_of_first_ensures(id);
            assert(pre.ids().remove_value(id) =~= pre.ids());
        }
    }

    /// What removal at the index where `id` sits does to the table.
    proof fn lemma_unregister_found(self, post: Hub, id: u64, i: int)
        requires
            self.wf(),
            0 <= i < self.subs@.len(),
            self.subs@[i].id == id,
            forall|j: int| 0 <= j < i ==> (#[trigger] self.subs@[j].id) != id,
            post.subs@ == self.subs@.remove(i),
            post.next_id == self.next_id,
        ensures
            post.wf(),
            !post.contains_id(id),
            post.ids() == self.ids().remove_value(id),
            forall|other: u64|
                other != id ==> (#[trigger] post.contains_id(other) <==> self.contains_id(other)),
            forall|other: u64|
                other != id && self.contains_id(other) ==> #[trigger] post.log_of(other)
                    == self.log_of(other),
    {
        assert(post.ids() =~= self.ids().remove(i));
        assert forall|j: int| 0 <= j < i implies #[trigger] self.ids()[j] != id by {
            assert(self.ids()[j] == self.subs@[j].id);
        }
        assert(self.ids()[i] == id);
        self.ids().index_of_first_ensures(id);
        assert(self.ids().index_of_first(id) == Some(i)) by {
            match self.ids().index_of_first(id) {
                Some(k) => {
                    assert(self.ids()[k] == id);
                    if k != i {
                        assert(false);
                    }
                },
                None => {
                    assert(!self.ids().contains(id));
                    assert(false);
                },
            }
        }
        assert(post.ids() == self.ids().remove_value(id));
        if post.contains_id(id) {
            let j = choose|j: int| 0 <= j < post.ids().len() && post.ids()[j] == id;
            let j_orig: int = if j < i {
                j
            } else {
                j + 1
            };
            assert(self.ids()[j_orig] == id);
            assert(j_orig != i ==> false);
            assert(false);
        }
        assert forall|other: u64| other != id && self.contains_id(other) implies #[trigger] post
            .contains_id(other) by {
            let j = choose|j: int| 0 <= j < self.ids().len() && self.ids()[j] == other;
            if j < i {
                assert(post.ids()[j] == other);
            } else {
                assert(j > i);
                assert(post.ids()[j - 1] == other);
            }
        }
        assert forall|other: u64| other != id && post.contains_id(other) implies self.contains_id(
            other,
        ) by {
            let j = choose|j: int| 0 <= j < post.ids().len() && post.ids()[j] == other;
            let j_orig: int = if j < i {
                j
            } else {
                j + 1
            };
            assert(self.ids()[j_orig] == other);
        }
        assert forall|other: u64| other != id && self.contains_id(other) implies #[trigger] post
            .log_of(other) == self.log_of(other) by {
            let j = choose|j: int| 0 <= j < self.ids().len() && self.ids()[j] == other;
            assert(self.subs@[j].id == other);
            self.lemma_log_of_at(j);
            if j < i {
                assert(post.subs@[j].id == other);
                post.lemma_log_of_at(j);
            } else {
                assert(j > i);
                assert(post.subs@[j - 1].id == other);
                post.lemma_log_of_at(j - 1);
            }
        }
    }

    /// Hand `message` to every subscriber's channel, in table order,
    /// and prune exactly the subscribers whose channel refused it.
    /// Every subscriber still in the table afterwards was there before
    /// and has exactly one new entry in its log: this broadcast's line,
    /// after everything delivered earlier.  No error of a pruned
    /// channel is visible to the others.
    pub fn broadcast_log(&mut self, message: &String)
        requires
            old(self).wf(),
        ensures
            final(self).wf(),
            final(self).next_client_id() == old(self).next_client_id(),
            forall|id: u64| #[trigger] final(self).contains_id(id) ==> old(self).contains_id(id),
            forall|id: u64| #[trigger]
                final(self).contains_id(id) ==> final(self).log_of(id) == old(self).log_of(
                    id,
                ).push(message@),
            is_subsequence(final(self).ids(), old(self).ids()),
    {
        let ghost pre = *self;
        let mut pending: Vec<Subscriber> = Vec::new();
        core::mem::swap(&mut pending, &mut self.subs);
        let ghost orig = pending@;
        let mut kept: Vec<Subscriber> = Vec::new();
        proof {
            assert(is_subsequence(kept@.map_values(|s: Subscriber| s.id), Seq::<u64>::empty()));
        }
        while pending.len() > 0
            invariant
                orig == pre.subs@,
                pre.wf(),
                pending@.len() <= orig.len(),
                pending@ =~= orig.skip(orig.len() - pending@.len()),
                is_subsequence(
                    kept@.map_values(|s: Subscriber| s.id),
                    orig.map_values(|s: Subscriber| s.id).take(orig.len() - pending@.len()),
                ),
                forall|j: int|
                    0 <= j < kept@.len() ==> exists|i: int|
                        0 <= i < orig.len() - pending@.len() && (#[trigger] kept@[j]).id
                            == orig[i].id && kept@[j].delivered@ == orig[i].delivered@.push(
                            message@,
                        ),
            decreases pending@.len(),
        {
            let ghost k: int = orig.len() - pending@.len();
            let sub = pending.remove(0);
            proof {
                assert(sub == orig[k]);
                assert(pending@ =~= orig.skip(orig.len() - pending@.len()));
            }
            let ok = deliver(&sub.sender, message.clone());
            if ok {
                let ghost old_kept = kept@;
                let appended = Subscriber {
                    id: sub.id,
                    sender: sub.sender,
                    delivered: Ghost(sub.delivered@.push(message@)),
                };
                kept.push(appended);
                proof {
                    let kept_ids = kept@.map_values(|s: Subscriber| s.id);
                    let old_ids = old_kept.map_values(|s: Subscriber| s.id);
                    let prefix = orig.map_values(|s: Subscriber| s.id).take(k);
                    let prefix1 = orig.map_values(|s: Subscriber| s.id).take(k + 1);
                    assert(kept_ids =~= old_ids.push(sub.id));
                    assert(prefix1 =~= prefix.push(sub.id));
                    assert(kept_ids.drop_last() =~= old_ids);
                    assert(prefix1.drop_last() =~= prefix);
                    assert(is_subsequence(kept_ids, prefix1));
                    assert forall|j: int| 0 <= j < kept@.len() implies exists|i: int|
                        0 <= i < k + 1 && (#[trigger] kept@[j]).id == orig[i].id
                            && kept@[j].delivered@ == orig[i].delivered@.push(message@) by {
                        if j < old_kept.len() {
                            assert(kept@[j] == old_kept[j]);
                        } else {
                            assert(kept@[j] == appended);
                            assert(0 <= k < k + 1 && kept@[j].id == orig[k].id
                                && kept@[j].delivered@ == orig[k].delivered@.push(message@));
                        }
                    }
                }
            } else {
                proof {
                    let kept_ids = kept@.map_values(|s: Subscriber| s.id);
                    let prefix = orig.map_values(|s: Subscriber| s.id).take(k);
                    let prefix1 = orig.map_values(|s: Subscriber| s.id).take(k + 1);
                    assert(prefix1 =~= prefix.push(sub.id));
                    assert(prefix1.drop_last() =~= prefix);
                    lemma_subsequence_extend_right(kept_ids, prefix, sub.id);
                }
            }
        }
        self.subs = kept;
        proof {
            assert(orig.map_values(|s: Subscriber| s.id).take(orig.len() as int) =~= pre.ids());
            lemma_subsequence_props(self.ids(), pre.ids());
            assert forall|j: int|
                0 <= j < self.subs@.len() implies (#[trigger] self.subs@[j].id)
                < self.next_id by {
                let i = choose|i: int|
                    0 <= i < orig.len() && self.subs@[j].id == orig[i].id && self.subs@[j].delivered@
                        == orig[i].delivered@.push(message@);
                assert(pre.subs@[i].id < pre.next_id);
            }
            assert(self.wf());
            assert forall|id: u64| #[trigger] self.contains_id(id) implies pre.contains_id(id)
                && self.log_of(id) == pre.log_of(id).push(message@) by {
                let j = choose|j: int| 0 <= j < self.ids().len() && self.ids()[j] == id;
                assert(self.subs@[j].id == id);
                let i = choose|i: int|
                    0 <= i < orig.len() && self.subs@[j].id == orig[i].id && self.subs@[j].delivered@
                        == orig[i].delivered@.push(message@);
                assert(pre.ids()[i] == orig[i].id);
                assert(pre.contains_id(id));
                pre.lemma_log_of_at(i);
                self.lemma_log_of_at(j);
            }
        }
    }

    /// How many clients are registered.
    pub fn client_count(&self) -> (n: usize)
        ensures
            n == self.ids().len(),
    {
        self.subs.len()
    }

    /// The id the next registration will take, for callers that must
    /// check it is still below the counter's ceiling.
    pub fn peek_next_client_id(&self) -> (r: u64)
        ensures
            r == self.next_client_id(),
    {
        self.next_id
    }
}

/// In a table without duplicate ids, removing an id's first (and only)
/// occurrence leaves no occurrence at all.
pub proof fn lemma_remove_value_absent(ids: Seq<u64>, id: u64)
    requires
        ids.no_duplicates(),
    ensures
        !ids.remove_value(id).contains(id),
{
    ids.index_of_first_ensures(id);
    match ids.index_of_first(id) {
        None => {
        },
        Some(i) => {
            let removed = ids.remove(i);
            if removed.contains(id) {
                let j = choose|j: int| 0 <= j < removed.len() && removed[j] == id;
                if j < i {
                    assert(ids[j] == id);
                } else {
                    assert(ids[j + 1] == id);
                    assert(ids[i] == id);
                }
                assert(false);
            }
        },
    }
}

/// A subsequence stays one when the longer side grows on the right.
proof fn lemma_subsequence_extend_right(a: Seq<u64>, b: Seq<u64>, x: u64)
    requires
        is_subsequence(a, b),
    ensures
        is_subsequence(a, b.push(x)),
{
    if a.len() == 0 {
    } else {
        assert(b.push(x).drop_last() =~= b);
    }
}

/// A subsequence has no more elements than its source, keeps its
/// source's elements only, and keeps distinctness.
proof fn lemma_subsequence_props(a: Seq<u64>, b: Seq<u64>)
    requires
        is_subsequence(a, b),
    ensures
        a.len() <= b.len(),
        forall|j: int| 0 <= j < a.len() ==> b.contains(#[trigger] a[j]),
        b.no_duplicates() ==> a.no_duplicates(),
    decreases a.len() + b.len(),
{
    if a.len() == 0 {
    } else if b.len() == 0 {
    } else {
        if a.last() == b.last() && is_subsequence(a.drop_last(), b.drop_last()) {
            lemma_subsequence_props(a.drop_last(), b.drop_last());
            assert forall|j: int| 0 <= j < a.len() implies b.contains(#[trigger] a[j]) by {
                if j < a.len() - 1 {
                    assert(a.drop_last()[j] == a[j]);
                    let i = choose|i: int|
                        0 <= i < b.drop_last().len() && b.drop_last()[i] == a[j];
                    assert(b[i] == a[j]);
                } else {
                    assert(b[b.len() - 1] == a[j]);
                }
            }
            if b.no_duplicates() {
                lemma_drop_last_no_duplicates(b);
                assert(a.drop_last().no_duplicates());
                assert forall|p: int, q: int| 0 <= p < q < a.len() implies a[p] != a[q] by {
                    if q < a.len() - 1 {
                        assert(a.drop_last()[p] == a[p] && a.drop_last()[q] == a[q]);
                    } else {
                        assert(a[q] == b.last());
                        if p < a.len() - 1 {
                            assert(a.drop_last()[p] == a[p]);
                            assert(b.drop_last().contains(a[p]));
                            let i = choose|i: int|
                                0 <= i < b.drop_last().len() && b.drop_last()[i] == a[p];
                            assert(b[i] == a[p]);
                            assert(i != b.len() - 1);
                        }
                    }
                }
            }
        } else {
            assert(is_subsequence(a, b.drop_last()));
            lemma_subsequence_props(a, b.drop_last());
            assert forall|j: int| 0 <= j < a.len() implies b.contains(#[trigger] a[j]) by {
                let i = choose|i: int| 0 <= i < b.drop_last().len() && b.drop_last()[i] == a[j];
                assert(b[i] == a[j]);
            }
            if b.no_duplicates() {
                lemma_drop_last_no_duplicates(b);
            }
        }
    }
}

/// Dropping the last element keeps a sequence free of duplicates.
proof fn lemma_drop_last_no_duplicates(b: Seq<u64>)
    requires
        b.len() > 0,
        b.no_duplicates(),
    ensures
        b.drop_last().no_duplicates(),
{
    assert forall|p: int, q: int|
        0 <= p < q < b.drop_last().len() implies b.drop_last()[p] != b.drop_last()[q] by {
        assert(b[p] == b.drop_last()[p] && b[q] == b.drop_last()[q]);
    }
}

} // verus!
