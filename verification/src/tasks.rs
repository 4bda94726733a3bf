//! Splitting a fractal image into tasks for the blocking server.
use vstd::prelude::*;
use vstd::string::StringExecFns;
use vstd::utf8::{
    decode_utf8, encode_utf8, encode_utf8_decode_utf8, encode_utf8_valid_utf8, is_ascii_chars,
    is_ascii_chars_encode_utf8, valid_utf8,
};
use crate::listener::slice_at;
use crate::codec::{push_bytes, str_equals};
use crate::structs::resolution::Resolution;
use crate::structs::u8data::U8Data;
use crate::utils::{all_lowercase_letters, push_char, random_string};

verus! {

/// What to render: the fractal's name, the image size and the iteration
/// bound.
pub struct FractalParams {
    pub fractal_type: String,
    pub resolution: Resolution,
    pub max_iteration: u16,
}

/// One task of a split image, short of the fractal plane region it covers:
/// its place in the grid, its identifier and the data block that carries the
/// identifier.
pub struct TaskPlan {
    pub column: u16,
    pub row: u16,
    pub id: U8Data,
    pub resolution: Resolution,
    pub max_iteration: u16,
    pub data: Vec<u8>,
    pub task_id: String,
}

/// The text of the error for an unknown fractal name.
pub open spec fn unknown_fractal_message(fractal_type: Seq<char>) -> Seq<char> {
    "Unknown fractal type: "@ + fractal_type
}

/// Whether `plan` is task number `k` of `params` split `split` by `split`.
pub open spec fn is_task_plan(plan: TaskPlan, params: FractalParams, split: u16, k: int) -> bool {
    &&& plan.column == k / (split as int)
    &&& plan.row == k % (split as int)
    &&& plan.resolution.nx == params.resolution.nx / split
    &&& plan.resolution.ny == params.resolution.ny / split
    &&& plan.max_iteration == params.max_iteration
    &&& plan.task_id@.len() == 8
    &&& all_lowercase_letters(plan.task_id@)
    &&& plan.data@ == encode_utf8(plan.task_id@)
    &&& plan.id.offset == 0
    &&& plan.id.count == 8
}

/// Digit `i` (0 to 7, least significant first) of `j` in base 16.
pub open spec fn hex_digit(j: u32, i: int) -> u32 {
    (j >> ((4 * i) as u32)) & 15u32
}

/// The spare name of number `j`: its eight base-16 digits, least significant
/// first, written as the letters `a` (0) to `p` (15).
pub open spec fn spare_name(j: u32) -> Seq<char> {
    Seq::new(8, |i: int| ((97 + hex_digit(j, i)) as u8) as char)
}

/// A base-16 digit is below 16.
proof fn lemma_digit_small(x: u32, shift: u32)
    ensures
        (x >> shift) & 15u32 < 16,
{
    assert((x >> shift) & 15u32 < 16) by (bit_vector);
}

/// Different numbers have different spare names.
pub proof fn lemma_spare_name_injective(j1: u32, j2: u32)
    requires
        spare_name(j1) == spare_name(j2),
    ensures
        j1 == j2,
{
    assert forall|i: int| 0 <= i < 8 implies #[trigger] hex_digit(j1, i) == hex_digit(j2, i) by {
        assert(spare_name(j1)[i] == spare_name(j2)[i]);
        lemma_digit_small(j1, (4 * i) as u32);
        lemma_digit_small(j2, (4 * i) as u32);
        let b1 = (97 + hex_digit(j1, i)) as u8;
        let b2 = (97 + hex_digit(j2, i)) as u8;
        assert(spare_name(j1)[i] == b1 as char);
        assert(spare_name(j2)[i] == b2 as char);
        assert(b1 as char == b2 as char);
        assert((b1 as char) as u32 == b1 as u32);
        assert((b2 as char) as u32 == b2 as u32);
    }
    assert(hex_digit(j1, 0) == hex_digit(j2, 0));
    assert(hex_digit(j1, 1) == hex_digit(j2, 1));
    assert(hex_digit(j1, 2) == hex_digit(j2, 2));
    assert(hex_digit(j1, 3) == hex_digit(j2, 3));
    assert(hex_digit(j1, 4) == hex_digit(j2, 4));
    assert(hex_digit(j1, 5) == hex_digit(j2, 5));
    assert(hex_digit(j1, 6) == hex_digit(j2, 6));
    assert(hex_digit(j1, 7) == hex_digit(j2, 7));
    assert(j1 == j2) by (bit_vector)
        requires
            (j1 >> 0u32) & 15u32 == (j2 >> 0u32) & 15u32,
            (j1 >> 4u32) & 15u32 == (j2 >> 4u32) & 15u32,
            (j1 >> 8u32) & 15u32 == (j2 >> 8u32) & 15u32,
            (j1 >> 12u32) & 15u32 == (j2 >> 12u32) & 15u32,
            (j1 >> 16u32) & 15u32 == (j2 >> 16u32) & 15u32,
            (j1 >> 20u32) & 15u32 == (j2 >> 20u32) & 15u32,
            (j1 >> 24u32) & 15u32 == (j2 >> 24u32) & 15u32,
            (j1 >> 28u32) & 15u32 == (j2 >> 28u32) & 15u32,
    ;
}

/// The spare name of number `j`.
fn make_spare_name(j: u32) -> (name: String)
    ensures
        name@ == spare_name(j),
        all_lowercase_letters(name@),
{
    let mut name = String::new();
    let mut i: u32 = 0;
    while i < 8
        invariant
            i <= 8,
            name@ == spare_name(j).take(i as int),
            all_lowercase_letters(name@),
        decreases 8 - i,
    {
        let digit = (j >> (4 * i)) & 15;
        proof {
            lemma_digit_small(j, (4 * i) as u32);
        }
        assert(digit == hex_digit(j, i as int));
        let c = (97 + digit as u8) as char;
        push_char(&mut name, c);
        i = i + 1;
        assert(name@ =~= spare_name(j).take(i as int));
    }
    assert(spare_name(j).take(8) =~= spare_name(j));
    name
}

/// Whether one of `plans` carries the identifier `name`.
pub open spec fn id_taken(plans: Seq<TaskPlan>, name: Seq<char>) -> bool {
    exists|i: int| 0 <= i < plans.len() && (#[trigger] plans[i]).task_id@ == name
}

/// No two of `plans` carry the same identifier.
pub open spec fn distinct_task_ids(plans: Seq<TaskPlan>) -> bool {
    forall|a: int, b: int|
        #![trigger plans[a], plans[b]]
        0 <= a < plans.len() && 0 <= b < plans.len() && a != b ==> plans[a].task_id@
            != plans[b].task_id@
}

/// Whether one of `plans` carries the identifier `name`.
fn id_in_use(plans: &Vec<TaskPlan>, name: &str) -> (used: bool)
    ensures
        used == id_taken(plans@, name@),
{
    let mut i: usize = 0;
    while i < plans.len()
        invariant
            i <= plans.len(),
            forall|m: int| 0 <= m < i ==> (#[trigger] plans@[m]).task_id@ != name@,
        decreases plans.len() - i,
    {
        if str_equals(plans[i].task_id.as_str(), name) {
            return true;
        }
        i = i + 1;
    }
    false
}

/// Of `n + 1` spare names (numbers `0` to `n`), one is carried by none of
/// `n` plans with distinct identifiers.
proof fn lemma_spare_name_free(plans: Seq<TaskPlan>)
    requires
        distinct_task_ids(plans),
        plans.len() < 0xffff_ffff,
    ensures
        exists|j: int| 0 <= j <= plans.len() && !id_taken(plans, #[trigger] spare_name(j as u32)),
{
    let n = plans.len();
    let ids = Seq::new(n, |i: int| plans[i].task_id@);
    let names = Seq::new((n + 1) as nat, |j: int| spare_name(j as u32));
    if forall|j: int| 0 <= j <= n ==> id_taken(plans, #[trigger] spare_name(j as u32)) {
        assert forall|a: int, b: int|
            0 <= a < names.len() && 0 <= b < names.len() && a != b implies names[a]
            != names[b] by {
            if names[a] == names[b] {
                lemma_spare_name_injective(a as u32, b as u32);
            }
        }
        assert forall|a: int, b: int|
            0 <= a < ids.len() && 0 <= b < ids.len() && a != b implies ids[a] != ids[b] by {
            assert(plans[a].task_id@ != plans[b].task_id@);
        }
        names.unique_seq_to_set();
        ids.unique_seq_to_set();
        assert forall|x: Seq<char>| names.to_set().contains(x) implies ids.to_set().contains(x) by {
            let j = choose|j: int| 0 <= j < names.len() && names[j] == x;
            assert(id_taken(plans, spare_name(j as u32)));
            let i = choose|i: int| 0 <= i < plans.len() && (#[trigger] plans[i]).task_id@
                == spare_name(j as u32);
            assert(ids[i] == x);
        }
        vstd::seq_lib::seq_to_set_is_finite(ids);
        vstd::set_lib::lemma_len_subset(names.to_set(), ids.to_set());
        assert(false);
    }
}

/// An identifier of eight lowercase letters that none of `plans` carries:
/// drawn at random, drawn again on a collision, and, should every draw
/// collide, the first spare name that is free.
fn fresh_task_id(plans: &Vec<TaskPlan>) -> (name: String)
    requires
        distinct_task_ids(plans@),
        plans.len() < 0xffff_ffff,
    ensures
        name@.len() == 8,
        all_lowercase_letters(name@),
        !id_taken(plans@, name@),
{
    let mut attempt: u32 = 0;
    while attempt < 16
        invariant
            attempt <= 16,
        decreases 16 - attempt,
    {
        let candidate = random_string(8);
        if !id_in_use(plans, candidate.as_str()) {
            return candidate;
        }
        attempt = attempt + 1;
    }
    let n: u64 = plans.len() as u64;
    let mut j: u64 = 0;
    while j <= n
        invariant
            n == plans.len(),
            n < 0xffff_ffff,
            j <= n + 1,
            forall|m: int| 0 <= m < j ==> id_taken(plans@, #[trigger] spare_name(m as u32)),
        decreases n + 1 - j,
    {
        let candidate = make_spare_name(j as u32);
        if !id_in_use(plans, candidate.as_str()) {
            return candidate;
        }
        j = j + 1;
    }
    proof {
        lemma_spare_name_free(plans@);
    }
    assert(false);
    make_spare_name(0)
}

/// The `split * split` tasks of an image, column by column, each with an
/// identifier that no other task of the image carries; only the Mandelbrot
/// fractal is known, and with `split == 0` there is no task and no error.
pub fn plan_fractal_tasks(params: &FractalParams, split: u16) -> (r: Result<Vec<TaskPlan>, String>)
    ensures
        split == 0 ==> (r matches Ok(plans) && plans@.len() == 0),
        split > 0 && params.fractal_type@ != "mandelbrot"@ ==> (r matches Err(m) && m@
            == unknown_fractal_message(params.fractal_type@)),
        split > 0 && params.fractal_type@ == "mandelbrot"@ ==> (r matches Ok(plans)
            && plans@.len() == split * split && distinct_task_ids(plans@) && forall|k: int|
            0 <= k < plans@.len() ==> is_task_plan(#[trigger] plans@[k], *params, split, k)),
{
    let mut plans: Vec<TaskPlan> = Vec::new();
    if split == 0 {
        return Ok(plans);
    }
    if !str_equals(params.fractal_type.as_str(), "mandelbrot") {
        let mut message = "Unknown fractal type: ".to_owned();
        message.append(params.fractal_type.as_str());
        return Err(message);
    }
    assert(split as int * split as int <= 0xffff * 0xffff) by (nonlinear_arith)
        requires
            split <= 0xffff,
    ;
    let total: u32 = split as u32 * split as u32;
    let mut k: u32 = 0;
    while k < total
        invariant
            split > 0,
            total == split * split,
            k <= total,
            plans@.len() == k,
            forall|m: int| 0 <= m < k ==> is_task_plan(#[trigger] plans@[m], *params, split, m),
            distinct_task_ids(plans@),
        decreases total - k,
    {
        let width: u32 = split as u32;
        assert(k / width < split) by (nonlinear_arith)
            requires
                k < total,
                total == split * split,
                width == split,
                split > 0,
        ;
        let column = (k / width) as u16;
        let row = (k % width) as u16;
        assert(total <= 0xffff * 0xffff) by (nonlinear_arith)
            requires
                total == split * split,
                split <= 0xffff,
        ;
        let task_id = fresh_task_id(&plans);
        let mut data: Vec<u8> = Vec::new();
        push_bytes(&mut data, task_id.as_str().as_bytes());
        proof {
            assert(is_ascii_chars(task_id@));
            is_ascii_chars_encode_utf8(task_id@);
        }
        let id = U8Data::new(0, data.len() as u32);
        let resolution = Resolution::new(params.resolution.nx / split, params.resolution.ny / split);
        let ghost old_plans = plans@;
        plans.push(
            TaskPlan {
                column,
                row,
                id,
                resolution,
                max_iteration: params.max_iteration,
                data,
                task_id,
            },
        );
        proof {
            assert forall|a: int, b: int|
                0 <= a < plans@.len() && 0 <= b < plans@.len() && a != b implies (
                #[trigger] plans@[a]).task_id@ != (#[trigger] plans@[b]).task_id@ by {
                if a == k as int {
                    assert(plans@[b] == old_plans[b]);
                } else if b == k as int {
                    assert(plans@[a] == old_plans[a]);
                } else {
                    assert(plans@[a] == old_plans[a]);
                    assert(plans@[b] == old_plans[b]);
                }
            }
        }
        k = k + 1;
    }
    Ok(plans)
}

/// The identifier block of a planned task locates, in the task's data, the
/// UTF-8 text of the task's identifier: reading it back gives the
/// identifier.
pub proof fn lemma_planned_task_id_readable(
    plan: TaskPlan,
    params: FractalParams,
    split: u16,
    k: int,
)
    requires
        is_task_plan(plan, params, split, k),
    ensures
        slice_at(plan.data@, plan.id.offset as int, plan.id.count as int) == Some(plan.data@),
        valid_utf8(plan.data@),
        decode_utf8(plan.data@) == plan.task_id@,
{
    assert(is_ascii_chars(plan.task_id@));
    is_ascii_chars_encode_utf8(plan.task_id@);
    encode_utf8_valid_utf8(plan.task_id@);
    encode_utf8_decode_utf8(plan.task_id@);
    assert(plan.data@.subrange(0, 8) =~= plan.data@);
}

} // verus!
