use vstd::prelude::*;

verus! {

/// A running window: the spawn id it was given and the stored instance it shows.
#[derive(Debug, Clone, Copy, PartialEq, Eq, Structural)]
pub struct SpawnedAnima {
    pub id: usize,
    pub instance_db_id: i32,
}

/// `s[i]` is the first entry with spawn id `id`.
pub open spec fn first_spawn_at(s: Seq<SpawnedAnima>, id: usize, i: int) -> bool {
    &&& 0 <= i < s.len()
    &&& s[i].id == id
    &&& forall|j: int| 0 <= j < i ==> #[trigger] s[j].id != id
}

/// No entry has spawn id `id`.
pub open spec fn no_spawn(s: Seq<SpawnedAnima>, id: usize) -> bool {
    forall|j: int| 0 <= j < s.len() ==> #[trigger] s[j].id != id
}

/// `s[i]` is the first entry that shows the stored instance `db_id`.
pub open spec fn first_instance_at(s: Seq<SpawnedAnima>, db_id: i32, i: int) -> bool {
    &&& 0 <= i < s.len()
    &&& s[i].instance_db_id == db_id
    &&& forall|j: int| 0 <= j < i ==> #[trigger] s[j].instance_db_id != db_id
}

/// No entry shows the stored instance `db_id`.
pub open spec fn no_instance(s: Seq<SpawnedAnima>, db_id: i32) -> bool {
    forall|j: int| 0 <= j < s.len() ==> #[trigger] s[j].instance_db_id != db_id
}

/// Every window's spawn id was handed out (it lies in `1..=counter`) and no
/// two windows share a spawn id.
pub open spec fn ids_issued(s: Seq<SpawnedAnima>, counter: nat) -> bool {
    &&& forall|j: int| 0 <= j < s.len() ==> 1 <= #[trigger] s[j].id <= counter
    &&& forall|j: int, k: int| 0 <= j < k < s.len() ==> #[trigger] s[j].id != #[trigger] s[k].id
}

/// The spawn id of the first running window that shows `db_id`, if any.
pub open spec fn running_spawn_of(s: Seq<SpawnedAnima>, db_id: i32) -> Option<usize> {
    if exists|i: int| first_instance_at(s, db_id, i) {
        Some(s[choose|i: int| first_instance_at(s, db_id, i)].id)
    } else {
        None
    }
}

/// There is at most one first position for an instance.
pub proof fn first_instance_unique(s: Seq<SpawnedAnima>, db_id: i32, i: int, j: int)
    requires
        first_instance_at(s, db_id, i),
        first_instance_at(s, db_id, j),
    ensures
        i == j,
{
    if i < j {
        assert(s[i].instance_db_id != db_id);
    }
    if j < i {
        assert(s[j].instance_db_id != db_id);
    }
}

/// Removing an entry keeps the ids issued.
proof fn ids_issued_remove(s: Seq<SpawnedAnima>, counter: nat, i: int)
    requires
        ids_issued(s, counter),
        0 <= i < s.len(),
    ensures
        ids_issued(s.remove(i), counter),
{
    let r = s.remove(i);
    assert forall|j: int| 0 <= j < r.len() implies 1 <= #[trigger] r[j].id <= counter by {
        if j < i {
            assert(r[j] == s[j]);
        } else {
            assert(r[j] == s[j + 1]);
        }
    }
    assert forall|j: int, k: int| 0 <= j < k < r.len() implies #[trigger] r[j].id != #[trigger] r[k].id by {
        let jj = if j < i { j } else { j + 1 };
        let kk = if k < i { k } else { k + 1 };
        assert(r[j] == s[jj]);
        assert(r[k] == s[kk]);
    }
}

/// The windows that are running, in the order they were registered, and
/// the counter from which new spawn ids are drawn.
pub struct SpawnRegistry {
    animas: Vec<SpawnedAnima>,
    instance_counter: usize,
}

impl SpawnRegistry {
    /// The running windows, in registration order.
    pub closed spec fn spawned(&self) -> Seq<SpawnedAnima> {
        self.animas@
    }

    /// The last spawn id handed out (0 before the first).
    pub closed spec fn counter(&self) -> nat {
        self.instance_counter as nat
    }

    /// Every running window carries a distinct spawn id that was handed out.
    pub open spec fn ids_issued(&self) -> bool {
        ids_issued(self.spawned(), self.counter())
    }

    /// An empty registry whose counter is 0.
    pub fn new() -> (r: SpawnRegistry)
        ensures
            r.spawned() == Seq::<SpawnedAnima>::empty(),
            r.counter() == 0,
            r.ids_issued(),
    {
        SpawnRegistry { animas: Vec::new(), instance_counter: 0 }
    }

    /// The number of running windows.
    pub fn len(&self) -> (n: usize)
        ensures
            n == self.spawned().len(),
    {
        self.animas.len()
    }

    /// The running window at position `i`.
    pub fn get(&self, i: usize) -> (a: SpawnedAnima)
        requires
            i < self.spawned().len(),
        ensures
            a == self.spawned()[i as int],
    {
        self.animas[i]
    }

    /// The last spawn id handed out.
    pub fn instance_counter(&self) -> (c: usize)
        ensures
            c == self.counter(),
    {
        self.instance_counter
    }

    /// Hands out the next spawn id: the counter moves on by one and its new
    /// value is the id.
    pub fn next_spawn_id(&mut self) -> (id: usize)
        requires
            old(self).counter() < usize::MAX,
        ensures
            final(self).counter() == old(self).counter() + 1,
            id == final(self).counter(),
            final(self).spawned() == old(self).spawned(),
            old(self).ids_issued() ==> final(self).ids_issued() && no_spawn(final(self).spawned(), id),
    {
        self.instance_counter = self.instance_counter + 1;
        self.instance_counter
    }

    /// Opens a window for the stored instance `db_id` in the registry: the
    /// next spawn id is handed out and the window is recorded with it.
    pub fn spawn_window(&mut self, db_id: i32) -> (a: SpawnedAnima)
        requires
            old(self).counter() < usize::MAX,
        ensures
            final(self).counter() == old(self).counter() + 1,
            a == (SpawnedAnima { id: final(self).counter() as usize, instance_db_id: db_id }),
            final(self).spawned() == old(self).spawned().push(a),
            old(self).ids_issued() ==> final(self).ids_issued() && no_spawn(old(self).spawned(), a.id),
    {
        let id = self.next_spawn_id();
        let a = SpawnedAnima { id, instance_db_id: db_id };
        self.animas.push(a);
        a
    }

    /// Replaces the window of the stored instance `db_id` after its settings
    /// were applied: the first window that shows it (if any) is dropped and
    /// handed back, then a new window is opened for it with the next spawn id.
    pub fn respawn_instance(&mut self, db_id: i32) -> (r: (Option<(usize, SpawnedAnima)>, SpawnedAnima))
        requires
            old(self).counter() < usize::MAX,
        ensures
            final(self).counter() == old(self).counter() + 1,
            r.1 == (SpawnedAnima { id: final(self).counter() as usize, instance_db_id: db_id }),
            match r.0 {
                Some((i, a)) => first_instance_at(old(self).spawned(), db_id, i as int)
                    && a == old(self).spawned()[i as int]
                    && final(self).spawned() == old(self).spawned().remove(i as int).push(r.1),
                None => no_instance(old(self).spawned(), db_id)
                    && final(self).spawned() == old(self).spawned().push(r.1),
            },
            old(self).ids_issued() ==> final(self).ids_issued(),
    {
        let taken = self.take_for_instance(db_id);
        let a = self.spawn_window(db_id);
        (taken, a)
    }


    /// The position of the first window with spawn id `id`.
    pub fn position_of_spawn(&self, id: usize) -> (pos: Option<usize>)
        ensures
            match pos {
                Some(i) => first_spawn_at(self.spawned(), id, i as int),
                None => no_spawn(self.spawned(), id),
            },
    {
        let n = self.animas.len();
        let mut i: usize = 0;
        while i < n
            invariant
                n == self.animas@.len(),
                i <= n,
                forall|j: int| 0 <= j < i ==> #[trigger] self.animas@[j].id != id,
            decreases n - i,
        {
            if self.animas[i].id == id {
                return Some(i);
            }
            i = i + 1;
        }
        None
    }

    /// The position of the first window that shows the stored instance `db_id`.
    pub fn position_of_instance(&self, db_id: i32) -> (pos: Option<usize>)
        ensures
            match pos {
                Some(i) => first_instance_at(self.spawned(), db_id, i as int),
                None => no_instance(self.spawned(), db_id),
            },
    {
        let n = self.animas.len();
        let mut i: usize = 0;
        while i < n
            invariant
                n == self.animas@.len(),
                i <= n,
                forall|j: int| 0 <= j < i ==> #[trigger] self.animas@[j].instance_db_id != db_id,
            decreases n - i,
        {
            if self.animas[i].instance_db_id == db_id {
                return Some(i);
            }
            i = i + 1;
        }
        None
    }

    /// The spawn id of the first window that shows the stored instance
    /// `db_id`, if one is running.
    pub fn running_spawn_id(&self, db_id: i32) -> (id: Option<usize>)
        ensures
            id == running_spawn_of(self.spawned(), db_id),
    {
        match self.position_of_instance(db_id) {
            Some(i) => {
                proof {
                    let c = choose|k: int| first_instance_at(self.spawned(), db_id, k);
                    first_instance_unique(self.spawned(), db_id, i as int, c);
                }
                Some(self.animas[i].id)
            },
            None => {
                proof {
                    if exists|k: int| first_instance_at(self.spawned(), db_id, k) {
                        let c = choose|k: int| first_instance_at(self.spawned(), db_id, k);
                        assert(self.spawned()[c].instance_db_id == db_id);
                    }
                }
                None
            },
        }
    }

    /// Drops the window at position `i` and hands it back.
    pub fn remove_at(&mut self, i: usize) -> (a: SpawnedAnima)
        requires
            i < old(self).spawned().len(),
        ensures
            a == old(self).spawned()[i as int],
            final(self).spawned() == old(self).spawned().remove(i as int),
            final(self).counter() == old(self).counter(),
            old(self).ids_issued() ==> final(self).ids_issued(),
    {
        proof {
            if self.ids_issued() {
                ids_issued_remove(self.animas@, self.counter(), i as int);
            }
        }
        self.animas.remove(i)
    }

    /// Drops the first window with spawn id `id` (it was closed) and gives
    /// the position it stood at; when no window has that id nothing changes.
    pub fn remove_spawn(&mut self, id: usize) -> (pos: Option<usize>)
        ensures
            final(self).counter() == old(self).counter(),
            match pos {
                Some(i) => first_spawn_at(old(self).spawned(), id, i as int)
                    && final(self).spawned() == old(self).spawned().remove(i as int),
                None => no_spawn(old(self).spawned(), id) && final(self).spawned() == old(self).spawned(),
            },
            old(self).ids_issued() ==> final(self).ids_issued(),
    {
        match self.position_of_spawn(id) {
            Some(i) => {
                self.remove_at(i);
                Some(i)
            },
            None => None,
        }
    }

    /// Drops the first window that shows the stored instance `db_id` and
    /// gives its position and record; when none does nothing changes.
    pub fn take_for_instance(&mut self, db_id: i32) -> (taken: Option<(usize, SpawnedAnima)>)
        ensures
            final(self).counter() == old(self).counter(),
            match taken {
                Some((i, a)) => first_instance_at(old(self).spawned(), db_id, i as int)
                    && a == old(self).spawned()[i as int]
                    && final(self).spawned() == old(self).spawned().remove(i as int),
                None => no_instance(old(self).spawned(), db_id) && final(self).spawned() == old(self).spawned(),
            },
            old(self).ids_issued() ==> final(self).ids_issued(),
    {
        match self.position_of_instance(db_id) {
            Some(i) => {
                let a = self.remove_at(i);
                Some((i, a))
            },
            None => None,
        }
    }
}

/// Records a window that has been opened. When the window is closed, its
/// entry is dropped again with `SpawnRegistry::remove_spawn`. The ids stay
/// issued when the window carries an id that was handed out and that no
/// running window carries.
pub fn register_anima_window(registry: &mut SpawnRegistry, anima: SpawnedAnima)
    ensures
        final(registry).spawned() == old(registry).spawned().push(anima),
        final(registry).counter() == old(registry).counter(),
        old(registry).ids_issued() && 1 <= anima.id <= old(registry).counter() && no_spawn(
            old(registry).spawned(),
            anima.id,
        ) ==> final(registry).ids_issued(),
{
    registry.animas.push(anima);
}

/// Closing a window whose spawn id was fresh when it was registered leaves
/// the registry as it was before the registration.
pub proof fn removing_fresh_spawn_undoes_register(s: Seq<SpawnedAnima>, a: SpawnedAnima)
    requires
        no_spawn(s, a.id),
    ensures
        !no_spawn(s.push(a), a.id),
        forall|i: int| first_spawn_at(s.push(a), a.id, i) ==> i == s.len() && s.push(a).remove(i) == s,
{
    assert(s.push(a)[s.len() as int].id == a.id);
    assert forall|i: int| first_spawn_at(s.push(a), a.id, i) implies i == s.len() && s.push(a).remove(i) == s by {
        if i < s.len() {
            assert(s.push(a)[i] == s[i]);
        }
        assert(s.push(a).remove(i) =~= s);
    }
}

/// While the ids are issued, no two running windows share a spawn id, so a
/// spawn id names at most one window.
pub proof fn issued_ids_are_distinct(s: Seq<SpawnedAnima>, counter: nat, i: int, j: int)
    requires
        ids_issued(s, counter),
        0 <= i < s.len(),
        0 <= j < s.len(),
        s[i].id == s[j].id,
    ensures
        i == j,
{
    if i < j {
        assert(s[i].id != s[j].id);
    }
    if j < i {
        assert(s[j].id != s[i].id);
    }
}

/// Some position is the first to show `db_id` when position `j` shows it.
proof fn first_instance_exists(s: Seq<SpawnedAnima>, db_id: i32, j: int) -> (m: int)
    requires
        0 <= j < s.len(),
        s[j].instance_db_id == db_id,
    ensures
        first_instance_at(s, db_id, m),
    decreases j,
{
    if exists|k: int| 0 <= k < j && s[k].instance_db_id == db_id {
        let k = choose|k: int| 0 <= k < j && s[k].instance_db_id == db_id;
        first_instance_exists(s, db_id, k)
    } else {
        j
    }
}

/// A stored instance counts as running exactly when some window shows it,
/// and then its running spawn id is that of the first such window.
pub proof fn running_spawn_is_first_window(s: Seq<SpawnedAnima>, db_id: i32)
    ensures
        running_spawn_of(s, db_id) is None <==> no_instance(s, db_id),
        running_spawn_of(s, db_id) matches Some(id) ==> exists|i: int|
            first_instance_at(s, db_id, i) && #[trigger] s[i].id == id,
{
    if !no_instance(s, db_id) {
        let j = choose|j: int| 0 <= j < s.len() && s[j].instance_db_id == db_id;
        let m = first_instance_exists(s, db_id, j);
        let c = choose|i: int| first_instance_at(s, db_id, i);
        assert(first_instance_at(s, db_id, c));
        assert(s[c].id == s[c].id);
    } else {
        if exists|i: int| first_instance_at(s, db_id, i) {
            let c = choose|i: int| first_instance_at(s, db_id, i);
            assert(s[c].instance_db_id == db_id);
        }
    }
}

} // verus!
