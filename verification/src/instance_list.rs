use vstd::prelude::*;
use vstd::string::*;

use crate::spawns::{running_spawn_of, SpawnRegistry, SpawnedAnima};
use crate::store::{
    find_animation, find_instance, first_index_of, first_index_of_holds, first_instance_with_id,
    InstanceSummary,
};

verus! {

/// The decimal digit for `d < 10`.
pub open spec fn digit_char(d: nat) -> char {
    if d == 0 {
        '0'
    } else if d == 1 {
        '1'
    } else if d == 2 {
        '2'
    } else if d == 3 {
        '3'
    } else if d == 4 {
        '4'
    } else if d == 5 {
        '5'
    } else if d == 6 {
        '6'
    } else if d == 7 {
        '7'
    } else if d == 8 {
        '8'
    } else {
        '9'
    }
}

/// The decimal digits of `n`, without leading zeros.
pub open spec fn nat_decimal(n: nat) -> Seq<char>
    decreases n,
{
    if n < 10 {
        seq![digit_char(n)]
    } else {
        nat_decimal(n / 10).push(digit_char(n % 10))
    }
}

/// How an integer is written in decimal: a minus sign for negative values,
/// then the digits of its magnitude.
pub open spec fn int_decimal(n: int) -> Seq<char> {
    if n < 0 {
        seq!['-'] + nat_decimal((-n) as nat)
    } else {
        nat_decimal(n as nat)
    }
}

fn digit_str(d: u32) -> (s: &'static str)
    requires
        d < 10,
    ensures
        s@ == seq![digit_char(d as nat)],
{
    proof {
        reveal_strlit("0");
        reveal_strlit("1");
        reveal_strlit("2");
        reveal_strlit("3");
        reveal_strlit("4");
        reveal_strlit("5");
        reveal_strlit("6");
        reveal_strlit("7");
        reveal_strlit("8");
        reveal_strlit("9");
    }
    match d {
        0 => "0",
        1 => "1",
        2 => "2",
        3 => "3",
        4 => "4",
        5 => "5",
        6 => "6",
        7 => "7",
        8 => "8",
        _ => "9",
    }
}

fn append_digits(s: &mut String, m: u32)
    ensures
        final(s)@ == old(s)@ + nat_decimal(m as nat),
    decreases m,
{
    if m >= 10 {
        append_digits(s, m / 10);
    }
    s.append(digit_str(m % 10));
    proof {
        if m >= 10 {
            assert(nat_decimal(m as nat) == nat_decimal((m / 10) as nat).push(digit_char((m % 10) as nat)));
        }
    }
    assert(final(s)@ =~= old(s)@ + nat_decimal(m as nat));
}

/// Appends the decimal form of `n` to `s`.
pub fn append_decimal(s: &mut String, n: i32)
    ensures
        final(s)@ == old(s)@ + int_decimal(n as int),
{
    if n < 0 {
        s.append("-");
        proof {
            reveal_strlit("-");
        }
        let m: u32 = (0i64 - (n as i64)) as u32;
        append_digits(s, m);
        assert(final(s)@ =~= old(s)@ + int_decimal(n as int));
    } else {
        append_digits(s, n as u32);
    }
}

/// Whether the Spawn button of the stored instance `db_id` opens a window:
/// the instance is stored and its animation exists.
pub open spec fn spawnable(insts: Seq<InstanceSummary>, anims: Seq<i32>, db_id: i32) -> bool {
    exists|i: int| first_instance_with_id(insts, db_id, i) && anims.contains(#[trigger] insts[i].animation_id)
}

/// What the Spawn button of the stored instance `db_id` does: when the
/// instance is stored and its animation exists, a window is opened for it
/// with the next spawn id, and the positions of the instance and of its
/// animation are handed back; otherwise nothing changes.
pub fn spawn_stored_instance(
    registry: &mut SpawnRegistry,
    instances: &Vec<InstanceSummary>,
    animation_ids: &Vec<i32>,
    db_id: i32,
) -> (r: Option<(SpawnedAnima, usize, usize)>)
    requires
        old(registry).counter() < usize::MAX || !spawnable(instances@, animation_ids@, db_id),
    ensures
        r is Some <==> spawnable(instances@, animation_ids@, db_id),
        match r {
            Some((a, i, j)) => {
                &&& first_instance_with_id(instances@, db_id, i as int)
                &&& j == first_index_of(animation_ids@, instances@[i as int].animation_id)
                &&& j < animation_ids@.len()
                &&& animation_ids@[j as int] == instances@[i as int].animation_id
                &&& final(registry).counter() == old(registry).counter() + 1
                &&& a == (SpawnedAnima { id: final(registry).counter() as usize, instance_db_id: db_id })
                &&& final(registry).spawned() == old(registry).spawned().push(a)
            },
            None => {
                &&& final(registry).counter() == old(registry).counter()
                &&& final(registry).spawned() == old(registry).spawned()
            },
        },
        old(registry).ids_issued() ==> final(registry).ids_issued(),
{
    let i = match find_instance(instances, db_id) {
        Some(i) => i,
        None => {
            return None;
        },
    };
    let anim_id = instances[i].animation_id;
    let j = match find_animation(animation_ids, anim_id) {
        Some(j) => j,
        None => {
            proof {
                assert forall|k: int| first_instance_with_id(instances@, db_id, k) implies !animation_ids@.contains(
                    #[trigger] instances@[k].animation_id,
                ) by {
                    if k < i {
                        assert(instances@[k].id != db_id);
                    }
                    if i < k {
                        assert(instances@[i as int].id != db_id);
                    }
                }
            }
            return None;
        },
    };
    assert(spawnable(instances@, animation_ids@, db_id)) by {
        assert(first_instance_with_id(instances@, db_id, i as int));
    }
    let a = registry.spawn_window(db_id);
    Some((a, i, j))
}

/// A row of the instance list.
#[derive(Debug, Clone, Copy, PartialEq, Eq, Structural)]
pub struct InstanceRow {
    /// The position of the instance in the list that was read.
    pub instance_index: usize,
    /// The position of its animation in the animation list.
    pub animation_index: usize,
    /// The spawn id of its running window, if one runs.
    pub running_spawn: Option<usize>,
}

/// The rows of the instance list: one for each stored instance, in order,
/// whose animation exists; instances of a missing animation are left out.
pub open spec fn instance_rows_of(
    insts: Seq<InstanceSummary>,
    anims: Seq<i32>,
    spawned: Seq<SpawnedAnima>,
) -> Seq<InstanceRow>
    decreases insts.len(),
{
    if insts.len() == 0 {
        Seq::empty()
    } else {
        let rows = instance_rows_of(insts.drop_last(), anims, spawned);
        let inst = insts.last();
        if anims.contains(inst.animation_id) {
            rows.push(
                InstanceRow {
                    instance_index: (insts.len() - 1) as usize,
                    animation_index: first_index_of(anims, inst.animation_id) as usize,
                    running_spawn: running_spawn_of(spawned, inst.id),
                },
            )
        } else {
            rows
        }
    }
}

/// The rows of the instance list for the stored instances and animations
/// and the running windows.
pub fn instance_rows(
    registry: &SpawnRegistry,
    instances: &Vec<InstanceSummary>,
    animation_ids: &Vec<i32>,
) -> (rows: Vec<InstanceRow>)
    ensures
        rows@ == instance_rows_of(instances@, animation_ids@, registry.spawned()),
{
    let mut rows: Vec<InstanceRow> = Vec::new();
    let n = instances.len();
    let mut i: usize = 0;
    assert(instances@.take(0) =~= Seq::<InstanceSummary>::empty());
    while i < n
        invariant
            n == instances@.len(),
            i <= n,
            rows@ == instance_rows_of(instances@.take(i as int), animation_ids@, registry.spawned()),
        decreases n - i,
    {
        let inst = instances[i];
        proof {
            assert(instances@.take(i + 1).drop_last() =~= instances@.take(i as int));
            assert(instances@.take(i + 1).last() == inst);
        }
        match find_animation(animation_ids, inst.animation_id) {
            Some(j) => {
                let running = registry.running_spawn_id(inst.id);
                rows.push(InstanceRow { instance_index: i, animation_index: j, running_spawn: running });
            },
            None => {},
        }
        i = i + 1;
    }
    assert(instances@.take(n as int) =~= instances@);
    rows
}

/// The text of an instance's row: `NAME (ID:ID)`, followed by ` [Running]`
/// when a window shows it.
pub open spec fn row_label_of(name: Seq<char>, id: i32, running: bool) -> Seq<char> {
    name + " (ID:"@ + int_decimal(id as int) + ")"@ + if running {
        " [Running]"@
    } else {
        Seq::empty()
    }
}

/// The text of an instance's row.
pub fn row_label(name: &str, id: i32, running: bool) -> (s: String)
    ensures
        s@ == row_label_of(name@, id, running),
{
    let mut s = String::from_str(name);
    s.append(" (ID:");
    append_decimal(&mut s, id);
    s.append(")");
    if running {
        s.append(" [Running]");
    }
    assert(s@ =~= row_label_of(name@, id, running));
    s
}

/// The properties of one row of the instance list.
pub open spec fn row_ok(
    r: InstanceRow,
    insts: Seq<InstanceSummary>,
    anims: Seq<i32>,
    spawned: Seq<SpawnedAnima>,
) -> bool {
    &&& r.instance_index < insts.len()
    &&& r.animation_index < anims.len()
    &&& anims[r.animation_index as int] == insts[r.instance_index as int].animation_id
    &&& forall|m: int| 0 <= m < r.animation_index ==> anims[m] != insts[r.instance_index as int].animation_id
    &&& r.running_spawn == running_spawn_of(spawned, insts[r.instance_index as int].id)
}

/// The number of instances whose animation exists.
pub open spec fn listed_count(insts: Seq<InstanceSummary>, anims: Seq<i32>) -> nat
    decreases insts.len(),
{
    if insts.len() == 0 {
        0
    } else {
        listed_count(insts.drop_last(), anims) + if anims.contains(insts.last().animation_id) {
            1nat
        } else {
            0nat
        }
    }
}

/// The instance list shows every instance whose animation exists, once and
/// in order, and no other; each row points at its instance's animation and
/// is marked running exactly when a window shows that instance.
pub proof fn instance_rows_properties(
    insts: Seq<InstanceSummary>,
    anims: Seq<i32>,
    spawned: Seq<SpawnedAnima>,
)
    requires
        insts.len() <= usize::MAX,
        anims.len() <= usize::MAX,
    ensures
        instance_rows_of(insts, anims, spawned).len() == listed_count(insts, anims),
        forall|k: int|
            0 <= k < instance_rows_of(insts, anims, spawned).len() ==> row_ok(
                #[trigger] instance_rows_of(insts, anims, spawned)[k],
                insts,
                anims,
                spawned,
            ),
        forall|k: int, l: int|
            0 <= k < l < instance_rows_of(insts, anims, spawned).len() ==> (#[trigger] instance_rows_of(
                insts,
                anims,
                spawned,
            )[k]).instance_index < (#[trigger] instance_rows_of(insts, anims, spawned)[l]).instance_index,
    decreases insts.len(),
{
    if insts.len() > 0 {
        let q = insts.drop_last();
        instance_rows_properties(q, anims, spawned);
        let r0 = instance_rows_of(q, anims, spawned);
        let r = instance_rows_of(insts, anims, spawned);
        let inst = insts.last();
        assert forall|k: int| 0 <= k < r0.len() implies row_ok(r0[k], insts, anims, spawned) by {
            assert(row_ok(r0[k], q, anims, spawned));
            assert(insts[r0[k].instance_index as int] == q[r0[k].instance_index as int]);
        }
        if anims.contains(inst.animation_id) {
            first_index_of_holds(anims, inst.animation_id);
            let e = r[r0.len() as int];
            assert(r == r0.push(e));
            assert(e.instance_index == insts.len() - 1);
            assert(insts[e.instance_index as int] == inst);
            assert(row_ok(e, insts, anims, spawned));
            assert forall|k: int| 0 <= k < r.len() implies row_ok(r[k], insts, anims, spawned) by {
                if k < r0.len() {
                    assert(r[k] == r0[k]);
                }
            }
            assert forall|k: int, l: int| 0 <= k < l < r.len() implies r[k].instance_index < r[l].instance_index by {
                assert(r[k] == r0[k]);
                assert(row_ok(r0[k], q, anims, spawned));
                if l < r0.len() {
                    assert(r[l] == r0[l]);
                }
            }
        }
    }
}

/// An instance's row reads `NAME (ID:ID)` and gains the suffix ` [Running]`
/// exactly when a window shows it, for every name and id: the running
/// label is the idle label with ` [Running]` appended.
pub proof fn running_label_appends_suffix(name: Seq<char>, id: i32)
    ensures
        row_label_of(name, id, false) == name + " (ID:"@ + int_decimal(id as int) + ")"@,
        row_label_of(name, id, true) == row_label_of(name, id, false) + " [Running]"@,
{
    assert(row_label_of(name, id, false) =~= name + " (ID:"@ + int_decimal(id as int) + ")"@);
}

/// The number that a run of decimal digits denotes.
pub open spec fn digits_value(s: Seq<char>) -> int
    decreases s.len(),
{
    if s.len() == 0 {
        0
    } else {
        digits_value(s.drop_last()) * 10 + ((s.last() as u32) as int - 48)
    }
}

proof fn digit_char_value(d: nat)
    requires
        d < 10,
    ensures
        (digit_char(d) as u32) as int - 48 == d,
        '0' <= digit_char(d) <= '9',
{
}

/// The decimal form of a natural number is a non-empty run of digits,
/// without a leading zero unless the number is 0, that denotes the number.
pub proof fn decimal_digits_denote_the_number(n: nat)
    ensures
        nat_decimal(n).len() >= 1,
        forall|i: int| 0 <= i < nat_decimal(n).len() ==> '0' <= #[trigger] nat_decimal(n)[i] <= '9',
        n > 0 ==> nat_decimal(n)[0] != '0',
        digits_value(nat_decimal(n)) == n,
    decreases n,
{
    let d = nat_decimal(n);
    digit_char_value(n % 10);
    if n < 10 {
        assert(d.drop_last() =~= Seq::<char>::empty());
        assert(n % 10 == n);
        assert(digits_value(d) == digits_value(d.drop_last()) * 10 + ((d.last() as u32) as int - 48));
    }
    if n >= 10 {
        decimal_digits_denote_the_number(n / 10);
        assert((n / 10) * 10 + n % 10 == n);
        let p = nat_decimal(n / 10);
        assert(d == p.push(digit_char(n % 10)));
        assert(d.drop_last() =~= p);
        assert(d.last() == digit_char(n % 10));
        assert(digits_value(d) == digits_value(d.drop_last()) * 10 + ((d.last() as u32) as int - 48));
        assert(digits_value(d) == (n / 10) * 10 + n % 10);
        assert forall|i: int| 0 <= i < d.len() implies '0' <= #[trigger] d[i] <= '9' by {
            if i < p.len() {
                assert(d[i] == p[i]);
            }
        }
        assert(d[0] == p[0]);
    }
}

/// A negative number is written as a minus sign and the digits of its
/// magnitude; a non-negative one as its digits alone.
pub proof fn decimal_sign(n: int)
    ensures
        n < 0 ==> int_decimal(n) == seq!['-'] + nat_decimal((-n) as nat) && int_decimal(n)[0] == '-',
        n >= 0 ==> int_decimal(n) == nat_decimal(n as nat) && int_decimal(n)[0] != '-',
{
    decimal_digits_denote_the_number(if n < 0 { (-n) as nat } else { n as nat });
    if n >= 0 {
        assert('0' <= nat_decimal(n as nat)[0] <= '9');
    }
}

} // verus!
