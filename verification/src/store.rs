use vstd::prelude::*;

verus! {

/// What the logic reads of a stored instance.
#[derive(Debug, Clone, Copy, PartialEq, Eq, Structural)]
pub struct InstanceSummary {
    pub id: i32,
    pub animation_id: i32,
    pub auto_spawn: bool,
}

/// The first position of `x` in `s`.
pub open spec fn first_index_of(s: Seq<i32>, x: i32) -> int {
    choose|j: int| 0 <= j < s.len() && s[j] == x && forall|k: int| 0 <= k < j ==> s[k] != x
}

/// The position of the first `x` in `v`, if any.
pub fn find_animation(v: &Vec<i32>, x: i32) -> (pos: Option<usize>)
    ensures
        match pos {
            Some(j) => v@.contains(x) && j == first_index_of(v@, x) && j < v@.len() && v@[j as int] == x,
            None => !v@.contains(x),
        },
{
    let n = v.len();
    let mut i: usize = 0;
    while i < n
        invariant
            n == v@.len(),
            i <= n,
            forall|k: int| 0 <= k < i ==> v@[k] != x,
        decreases n - i,
    {
        if v[i] == x {
            proof {
                let j = i as int;
                assert(0 <= j < v@.len() && v@[j] == x && forall|k: int| 0 <= k < j ==> v@[k] != x);
                let c = first_index_of(v@, x);
                assert(0 <= c < v@.len() && v@[c] == x && forall|k: int| 0 <= k < c ==> v@[k] != x);
                if c < j {
                    assert(v@[c] != x);
                }
                if c > j {
                    assert(v@[j] != x);
                }
            }
            return Some(i);
        }
        i = i + 1;
    }
    None
}

/// When `x` occurs, `first_index_of` picks a position that holds `x`, and
/// no earlier position holds it.
pub proof fn first_index_of_holds(s: Seq<i32>, x: i32)
    requires
        s.contains(x),
    ensures
        0 <= first_index_of(s, x) < s.len(),
        s[first_index_of(s, x)] == x,
        forall|k: int| 0 <= k < first_index_of(s, x) ==> s[k] != x,
{
    let j = choose|j: int| 0 <= j < s.len() && s[j] == x;
    let m = choose_first(s, x, j);
    assert(0 <= m < s.len() && s[m] == x && forall|k: int| 0 <= k < m ==> s[k] != x);
}

/// Some position holds the first `x` of `s` when `s[j] == x`.
proof fn choose_first(s: Seq<i32>, x: i32, j: int) -> (m: int)
    requires
        0 <= j < s.len(),
        s[j] == x,
    ensures
        0 <= m <= j,
        s[m] == x,
        forall|k: int| 0 <= k < m ==> s[k] != x,
    decreases j,
{
    if exists|k: int| 0 <= k < j && s[k] == x {
        let k = choose|k: int| 0 <= k < j && s[k] == x;
        choose_first(s, x, k)
    } else {
        j
    }
}

/// `insts[i]` is the first stored instance with id `id`.
pub open spec fn first_instance_with_id(insts: Seq<InstanceSummary>, id: i32, i: int) -> bool {
    &&& 0 <= i < insts.len()
    &&& insts[i].id == id
    &&& forall|k: int| 0 <= k < i ==> #[trigger] insts[k].id != id
}

/// The position of the first stored instance with id `id`, if any.
pub fn find_instance(instances: &Vec<InstanceSummary>, id: i32) -> (pos: Option<usize>)
    ensures
        match pos {
            Some(i) => first_instance_with_id(instances@, id, i as int),
            None => forall|k: int| 0 <= k < instances@.len() ==> #[trigger] instances@[k].id != id,
        },
{
    let n = instances.len();
    let mut i: usize = 0;
    while i < n
        invariant
            n == instances@.len(),
            i <= n,
            forall|k: int| 0 <= k < i ==> #[trigger] instances@[k].id != id,
        decreases n - i,
    {
        if instances[i].id == id {
            return Some(i);
        }
        i = i + 1;
    }
    None
}

/// Whether some stored instance uses the animation `anim_id`; an animation
/// in use may not be deleted.
pub fn animation_in_use(instances: &Vec<InstanceSummary>, anim_id: i32) -> (r: bool)
    ensures
        r == exists|i: int| 0 <= i < instances@.len() && #[trigger] instances@[i].animation_id == anim_id,
{
    let n = instances.len();
    let mut i: usize = 0;
    while i < n
        invariant
            n == instances@.len(),
            i <= n,
            forall|k: int| 0 <= k < i ==> #[trigger] instances@[k].animation_id != anim_id,
        decreases n - i,
    {
        if instances[i].animation_id == anim_id {
            return true;
        }
        i = i + 1;
    }
    false
}

/// Files larger than this many bytes are only imported after a warning.
pub const LARGE_IMPORT_BYTES: u64 = 10485760;

/// Whether importing a file of `len` bytes asks for confirmation first:
/// exactly when it is larger than 10 MiB.
pub fn is_large_import(len: u64) -> (r: bool)
    ensures
        r == (len > 10 * 1024 * 1024),
{
    len > LARGE_IMPORT_BYTES
}

} // verus!
