//! Packed point records: locating fields by name and by byte position, and packed RGB colors.
use crate::config::Color;
use crate::input::same_text;
use vstd::prelude::*;

verus! {

/// A declared field of a point record: its name and its byte offset within the record.
#[derive(Clone, Debug)]
pub struct PointField {
    pub name: String,
    pub offset: u32,
}

/// The offset of the first field named `name`, or `None` when no field has that name.
pub fn get_channel_offset(name: &str, fields: &Vec<PointField>) -> (r: Option<u32>)
    ensures
        match r {
            Some(o) => exists|i: int|
                0 <= i < fields@.len() && fields@[i].name@ == name@ && fields@[i].offset == o
                    && forall|j: int| 0 <= j < i ==> fields@[j].name@ != name@,
            None => forall|i: int| 0 <= i < fields@.len() ==> fields@[i].name@ != name@,
        },
{
    let mut i: usize = 0;
    while i < fields.len()
        invariant
            i <= fields@.len(),
            forall|j: int| 0 <= j < i ==> fields@[j].name@ != name@,
        decreases fields@.len() - i,
    {
        if same_text(fields[i].name.as_str(), name) {
            return Some(fields[i].offset);
        }
        i += 1;
    }
    None
}

/// Whether a field of `field_len` bytes at `offset` lies inside the data for each of `count`
/// records of `step` bytes.
pub open spec fn records_fit(count: u64, step: u32, offset: u32, field_len: u32, data_len: usize) -> bool {
    count == 0 || (count - 1) * step + offset + field_len <= data_len
}

proof fn lemma_record_within(i: int, count: int, step: int)
    requires
        0 <= i < count,
        step >= 0,
    ensures
        i * step <= (count - 1) * step,
{
    assert(i * step <= (count - 1) * step) by (nonlinear_arith)
        requires
            0 <= i <= count - 1,
            step >= 0,
    ;
}

/// The byte position of a field in each of `count` records of `step` bytes, the field lying at
/// `offset` within its record; `None` when a field of `field_len` bytes would run past the data.
pub fn field_positions(count: u64, step: u32, offset: u32, field_len: u32, data_len: usize) -> (r:
    Option<Vec<usize>>)
    ensures
        r is Some <==> records_fit(count, step, offset, field_len, data_len),
        r matches Some(v) ==> v@.len() == count && forall|i: int|
            0 <= i < count ==> v@[i] == i * step + offset,
{
    if count == 0 {
        return Some(Vec::new());
    }
    let before: u128 = count as u128 - 1;
    assert(before * (step as u128) <= 0xffff_ffff_ffff_ffffu128 * 0xffff_ffffu128) by (nonlinear_arith)
        requires
            before <= 0xffff_ffff_ffff_ffffu128,
            step <= 0xffff_ffffu32,
    ;
    let last: u128 = before * (step as u128) + offset as u128 + field_len as u128;
    if last > data_len as u128 {
        return None;
    }
    let mut v: Vec<usize> = Vec::new();
    let mut i: u64 = 0;
    while i < count
        invariant
            count > 0,
            (count - 1) * step + offset + field_len <= data_len,
            i <= count,
            v@.len() == i,
            forall|k: int| 0 <= k < i ==> v@[k] == k * step + offset,
        decreases count - i,
    {
        proof {
            lemma_record_within(i as int, count as int, step as int);
        }
        let at: u128 = (i as u128) * (step as u128) + offset as u128;
        v.push(at as usize);
        i += 1;
    }
    Some(v)
}

/// The packed RGB color of each of `count` records: the byte at the field's position is blue,
/// the next green, the one after red. `None` when a color would run past the data.
pub fn colorize_from_rgb(data: &Vec<u8>, count: u64, step: u32, rgb_offset: u32) -> (r: Option<
    Vec<Color>,
>)
    ensures
        r is Some <==> records_fit(count, step, rgb_offset, 3, data@.len() as usize),
        r matches Some(c) ==> c@.len() == count && forall|i: int|
            0 <= i < count ==> {
                let at = i * step + rgb_offset;
                #[trigger] c@[i] == (Color { r: data@[at + 2], b: data@[at], g: data@[at + 1] })
            },
{
    match field_positions(count, step, rgb_offset, 3, data.len()) {
        None => None,
        Some(pos) => {
            let mut out: Vec<Color> = Vec::new();
            let n_bytes = data.len();
            let mut i: usize = 0;
            while i < pos.len()
                invariant
                    n_bytes == data@.len(),
                    pos@.len() == count,
                    count > 0 ==> (count - 1) * step + rgb_offset + 3 <= data@.len(),
                    forall|k: int| 0 <= k < count ==> pos@[k] == k * step + rgb_offset,
                    i <= pos@.len(),
                    out@.len() == i,
                    forall|k: int|
                        0 <= k < i ==> {
                            let at = k * step + rgb_offset;
                            #[trigger] out@[k] == (Color { r: data@[at + 2], b: data@[at], g: data@[at + 1] })
                        },
                decreases pos@.len() - i,
            {
                let at = pos[i];
                proof {
                    lemma_record_within(i as int, count as int, step as int);
                }
                assert(at + 3 <= data@.len());
                out.push(Color { r: data[at + 2], b: data[at], g: data[at + 1] });
                i += 1;
            }
            Some(out)
        },
    }
}

} // verus!
