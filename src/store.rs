use vstd::prelude::*;
use crate::meme::{Meme, MemeView, MemeDraft, DraftView, views, record_of};

verus! {

/// Why a store operation did not take place.
#[derive(Debug, Clone, Copy, PartialEq, Eq, Structural)]
pub enum StoreError {
    /// No stored record has the requested id.
    NotFound,
    /// The initial records hold an id of zero or the same id twice.
    InvalidSeed,
    /// No further id can be represented.
    IdsExhausted,
    /// The like counter of the record is at its largest value.
    LikesExhausted,
}

/// Does some record of `s` carry `id`?
pub open spec fn has_id(s: Seq<MemeView>, id: nat) -> bool {
    exists|i: int| 0 <= i < s.len() && #[trigger] s[i].id == id
}

/// The ids of `s` are positive, pairwise distinct and all below `next`.
pub open spec fn ids_valid(s: Seq<MemeView>, next: nat) -> bool {
    &&& forall|i: int| 0 <= i < s.len() ==> 1 <= #[trigger] s[i].id < next
    &&& forall|i: int, j: int|
        0 <= i < s.len() && 0 <= j < s.len() && i != j ==> #[trigger] s[i].id != #[trigger] s[j].id
}

/// The position of the record that carries `id`.
pub open spec fn index_of(s: Seq<MemeView>, id: nat) -> int {
    choose|i: int| 0 <= i < s.len() && s[i].id == id
}

/// A record with one more like.
pub open spec fn liked(m: MemeView) -> MemeView {
    MemeView { likes: m.likes + 1, ..m }
}

/// The records after one like of the record that carries `id`; unchanged
/// where none does.
pub open spec fn like_in(s: Seq<MemeView>, id: nat) -> Seq<MemeView> {
    if has_id(s, id) {
        s.update(index_of(s, id), liked(s[index_of(s, id)]))
    } else {
        s
    }
}

/// The largest id of `s`, or zero for no records.
pub open spec fn max_id(s: Seq<MemeView>) -> nat
    decreases s.len(),
{
    if s.len() == 0 {
        0
    } else {
        let m = max_id(s.drop_last());
        if s.last().id > m { s.last().id } else { m }
    }
}

/// The ids of `s` are positive and pairwise distinct.
pub open spec fn seed_acceptable(s: Seq<MemeView>) -> bool {
    &&& forall|i: int| 0 <= i < s.len() ==> 1 <= #[trigger] s[i].id
    &&& forall|i: int, j: int|
        0 <= i < s.len() && 0 <= j < s.len() && i != j ==> #[trigger] s[i].id != #[trigger] s[j].id
}

/// The records and the id counter: the one shared state of the service.
/// Callers that share it serialize every operation on it.
pub struct MemeStore {
    memes: Vec<Meme>,
    next_id: u64,
}

impl View for MemeStore {
    type V = Seq<MemeView>;

    closed spec fn view(&self) -> Seq<MemeView> {
        views(self.memes@)
    }
}

impl MemeStore {
    /// The id the next appended record receives.
    pub closed spec fn next_id(&self) -> nat {
        self.next_id as nat
    }

    pub closed spec fn wf(&self) -> bool {
        &&& self.next_id >= 1
        &&& ids_valid(self@, self.next_id as nat)
    }

    /// A store holding `initial`, whose next id is one above the largest of them.
    pub fn seed(initial: Vec<Meme>) -> (r: Result<MemeStore, StoreError>)
        ensures
            !seed_acceptable(views(initial@)) <==> r == Err::<MemeStore, StoreError>(StoreError::InvalidSeed),
            seed_acceptable(views(initial@)) && max_id(views(initial@)) == u64::MAX
                <==> r == Err::<MemeStore, StoreError>(StoreError::IdsExhausted),
            seed_acceptable(views(initial@)) && max_id(views(initial@)) < u64::MAX ==> r is Ok,
            r is Ok ==> ({
                let st = r->Ok_0;
                &&& st.wf()
                &&& st@ == views(initial@)
                &&& st.next_id() == max_id(views(initial@)) + 1
            }),
    {
        let ghost v = views(initial@);
        let n = initial.len();
        let mut top: u64 = 0;
        let mut i: usize = 0;
        while i < n
            invariant
                n == initial@.len(),
                v == views(initial@),
                0 <= i <= n,
                top as nat == max_id(v.take(i as int)),
                seed_acceptable(v.take(i as int)),
            decreases n - i,
        {
            let id = initial[i].id;
            if id == 0 {
                assert(v[i as int].id == 0);
                return Err(StoreError::InvalidSeed);
            }
            let mut j: usize = 0;
            while j < i
                invariant
                    n == initial@.len(),
                    v == views(initial@),
                    0 <= j <= i < n,
                    id == v[i as int].id,
                    forall|k: int| 0 <= k < j ==> v[k].id != id,
                decreases i - j,
            {
                if initial[j].id == id {
                    assert(v[j as int].id == v[i as int].id);
                    return Err(StoreError::InvalidSeed);
                }
                j = j + 1;
            }
            assert(v.take(i as int + 1).drop_last() =~= v.take(i as int));
            if id > top {
                top = id;
            }
            i = i + 1;
        }
        assert(v.take(n as int) =~= v);
        if top == u64::MAX {
            return Err(StoreError::IdsExhausted);
        }
        proof {
            lemma_max_id_bounds(v);
        }
        Ok(MemeStore { memes: initial, next_id: top + 1 })
    }

    /// Gives `draft` the next id and zeroed counters, stores it, and returns
    /// the stored record.
    pub fn append(&mut self, draft: MemeDraft) -> (r: Result<Meme, StoreError>)
        requires
            old(self).wf(),
        ensures
            final(self).wf(),
            old(self).next_id() == u64::MAX <==> r == Err::<Meme, StoreError>(StoreError::IdsExhausted),
            old(self).next_id() < u64::MAX ==> r is Ok,
            r is Err ==> *final(self) == *old(self),
            r is Ok ==> ({
                let m = r->Ok_0;
                &&& m@ == record_of(draft@, old(self).next_id())
                &&& final(self)@ == old(self)@.push(m@)
                &&& final(self).next_id() == old(self).next_id() + 1
            }),
    {
        if self.next_id == u64::MAX {
            return Err(StoreError::IdsExhausted);
        }
        let m = Meme {
            id: self.next_id,
            caption: draft.caption,
            tags: draft.tags,
            image: draft.image,
            evm_address: draft.evm_address,
            likes: 0,
            comment_count: 0,
        };
        let out = m.duplicate();
        let ghost pre = self@;
        self.memes.push(m);
        self.next_id = self.next_id + 1;
        assert(self@ =~= pre.push(out@));
        Ok(out)
    }

    /// A copy of every stored record, in stored order.
    pub fn list(&self) -> (r: Vec<Meme>)
        ensures
            views(r@) == self@,
    {
        let mut r: Vec<Meme> = Vec::new();
        let mut i: usize = 0;
        while i < self.memes.len()
            invariant
                0 <= i <= self.memes@.len(),
                views(r@) =~= views(self.memes@).take(i as int),
            decreases self.memes@.len() - i,
        {
            let ghost before = r@;
            r.push(self.memes[i].duplicate());
            assert(views(r@) =~= views(before).push(self.memes@[i as int]@));
            assert(views(self.memes@).take(i as int + 1) =~= views(self.memes@).take(i as int).push(self.memes@[i as int]@));
            i = i + 1;
        }
        assert(views(self.memes@).take(i as int) =~= views(self.memes@));
        r
    }

    /// Adds one like to the record that carries `id` and returns its new state.
    pub fn increment_likes(&mut self, id: u64) -> (r: Result<Meme, StoreError>)
        requires
            old(self).wf(),
        ensures
            final(self).wf(),
            final(self).next_id() == old(self).next_id(),
            !has_id(old(self)@, id as nat) <==> r == Err::<Meme, StoreError>(StoreError::NotFound),
            has_id(old(self)@, id as nat) && old(self)@[index_of(old(self)@, id as nat)].likes == u64::MAX
                <==> r == Err::<Meme, StoreError>(StoreError::LikesExhausted),
            has_id(old(self)@, id as nat) && old(self)@[index_of(old(self)@, id as nat)].likes < u64::MAX
                ==> r is Ok,
            r is Err ==> *final(self) == *old(self),
            r is Ok ==> ({
                let m = r->Ok_0;
                &&& final(self)@ == like_in(old(self)@, id as nat)
                &&& m@ == liked(old(self)@[index_of(old(self)@, id as nat)])
            }),
    {
        let ghost pre = self@;
        let mut i: usize = 0;
        while i < self.memes.len() && self.memes[i].id != id
            invariant
                0 <= i <= self.memes@.len(),
                pre == self@,
                forall|k: int| 0 <= k < i ==> pre[k].id != id,
            decreases self.memes@.len() - i,
        {
            i = i + 1;
        }
        if i == self.memes.len() {
            return Err(StoreError::NotFound);
        }
        assert(pre[i as int].id == id);
        assert(index_of(pre, id as nat) == i) by {
            let c = index_of(pre, id as nat);
            assert(0 <= c < pre.len() && pre[c].id == id);
        }
        if self.memes[i].likes == u64::MAX {
            return Err(StoreError::LikesExhausted);
        }
        let mut m = self.memes.remove(i);
        m.likes = m.likes + 1;
        let out = m.duplicate();
        self.memes.insert(i, m);
        assert(self@ =~= like_in(pre, id as nat));
        Ok(out)
    }
}

/// The records after appending each of `drafts` in turn, starting with the id `next`.
pub open spec fn append_all(s: Seq<MemeView>, next: nat, drafts: Seq<DraftView>) -> Seq<MemeView>
    decreases drafts.len(),
{
    if drafts.len() == 0 {
        s
    } else {
        let k = (drafts.len() - 1) as nat;
        append_all(s, next, drafts.drop_last()).push(record_of(drafts.last(), next + k))
    }
}

/// Each `append` stores `record_of(draft, next)` and moves `next` up by one.
/// Over any sequence of appends, the new records carry strictly increasing ids,
/// and all ids of the store stay distinct.
pub proof fn lemma_append_ids_increase(s: Seq<MemeView>, next: nat, drafts: Seq<DraftView>)
    requires
        next >= 1,
        ids_valid(s, next),
    ensures
        ({
            let t = append_all(s, next, drafts);
            &&& t.len() == s.len() + drafts.len()
            &&& t.take(s.len() as int) == s
            &&& forall|i: int| 0 <= i < drafts.len() ==> #[trigger] t[s.len() + i].id == next + i
            &&& forall|i: int, j: int|
                0 <= i < j < drafts.len() ==> #[trigger] t[s.len() + i].id < #[trigger] t[s.len() + j].id
            &&& ids_valid(t, next + drafts.len())
        }),
    decreases drafts.len(),
{
    if drafts.len() > 0 {
        let p = drafts.drop_last();
        lemma_append_ids_increase(s, next, p);
        let u = append_all(s, next, p);
        let t = append_all(s, next, drafts);
        assert(t == u.push(record_of(drafts.last(), next + p.len())));
        assert(t.take(s.len() as int) =~= u.take(s.len() as int));
        assert forall|i: int| 0 <= i < drafts.len() implies #[trigger] t[s.len() + i].id == next + i by {
            if i < p.len() {
                assert(t[s.len() + i] == u[s.len() + i]);
            }
        }
        assert forall|i: int| 0 <= i < t.len() implies 1 <= #[trigger] t[i].id < next + drafts.len() by {
            if i < u.len() {
                assert(t[i] == u[i]);
            } else {
                assert(t[i].id == next + p.len());
            }
        }
        assert forall|i: int, j: int|
            0 <= i < t.len() && 0 <= j < t.len() && i != j implies #[trigger] t[i].id != #[trigger] t[j].id by {
            if i < u.len() && j < u.len() {
                assert(t[i] == u[i] && t[j] == u[j]);
            } else if i < u.len() {
                assert(t[i] == u[i]);
            } else if j < u.len() {
                assert(t[j] == u[j]);
            }
        }
        assert forall|i: int, j: int|
            0 <= i < j < drafts.len() implies #[trigger] t[s.len() + i].id < #[trigger] t[s.len() + j].id by {
            assert(t[s.len() + i].id == next + i);
            assert(t[s.len() + j].id == next + j);
        }
    }
}

/// The records after `n` likes of the record that carries `id`.
pub open spec fn like_times(s: Seq<MemeView>, id: nat, n: nat) -> Seq<MemeView>
    decreases n,
{
    if n == 0 {
        s
    } else {
        like_in(like_times(s, id, (n - 1) as nat), id)
    }
}

/// What a well-formed store holds: its next id is positive, and the ids of its
/// records are positive, pairwise distinct and below the next id.
pub proof fn lemma_wf_ids(st: &MemeStore)
    requires
        st.wf(),
    ensures
        st.next_id() >= 1,
        ids_valid(st@, st.next_id()),
{
}

proof fn lemma_index_of_unique(s: Seq<MemeView>, next: nat, id: nat, i: int)
    requires
        ids_valid(s, next),
        0 <= i < s.len(),
        s[i].id == id,
    ensures
        has_id(s, id),
        index_of(s, id) == i,
{
    let c = index_of(s, id);
    assert(0 <= c < s.len() && s[c].id == id);
}

/// `n` likes of a stored record, one after the other, raise its like count by
/// exactly `n` and leave every other field and every other record as it was.
pub proof fn lemma_likes_accumulate(s: Seq<MemeView>, next: nat, id: nat, n: nat)
    requires
        ids_valid(s, next),
        has_id(s, id),
    ensures
        ({
            let t = like_times(s, id, n);
            let i = index_of(s, id);
            &&& ids_valid(t, next)
            &&& has_id(t, id)
            &&& index_of(t, id) == i
            &&& t[i] == MemeView { likes: s[i].likes + n, ..s[i] }
            &&& t.len() == s.len()
            &&& forall|k: int| 0 <= k < s.len() && k != i ==> #[trigger] t[k] == s[k]
        }),
    decreases n,
{
    let i = index_of(s, id);
    if n > 0 {
        lemma_likes_accumulate(s, next, id, (n - 1) as nat);
        let u = like_times(s, id, (n - 1) as nat);
        let t = like_times(s, id, n);
        assert(t == u.update(i, liked(u[i])));
        assert forall|k: int| 0 <= k < t.len() implies #[trigger] t[k].id == u[k].id by {
            if k == i {
                assert(t[k] == liked(u[k]));
            }
        }
        assert(ids_valid(t, next));
        lemma_index_of_unique(t, next, id, i);
    } else {
        lemma_index_of_unique(s, next, id, i);
    }
}

proof fn lemma_max_id_bounds(s: Seq<MemeView>)
    ensures
        forall|i: int| 0 <= i < s.len() ==> #[trigger] s[i].id <= max_id(s),
    decreases s.len(),
{
    if s.len() > 0 {
        lemma_max_id_bounds(s.drop_last());
        assert forall|i: int| 0 <= i < s.len() implies #[trigger] s[i].id <= max_id(s) by {
            if i < s.len() - 1 {
                assert(s[i] == s.drop_last()[i]);
            }
        }
    }
}

} // verus!
