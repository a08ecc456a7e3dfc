use vstd::prelude::*;

verus! {

/// What reading the launch-on-startup registry value tells, given the status code
/// of the query: `0` (success) means the value exists, `2` (file not found) means
/// it does not, any other code is an error.
pub fn run_value_query_outcome(code: u32) -> (r: Result<bool, u32>)
    ensures
        code == 0 ==> r == Ok::<bool, u32>(true),
        code == 2 ==> r == Ok::<bool, u32>(false),
        code != 0 && code != 2 ==> r == Err::<bool, u32>(code),
{
    if code == 0 {
        Ok(true)
    } else if code == 2 {
        Ok(false)
    } else {
        Err(code)
    }
}

/// What deleting the launch-on-startup registry value comes to, given the status
/// code of the deletion: success and "not found" both leave the value absent;
/// any other code is an error.
pub fn run_value_delete_outcome(code: u32) -> (r: Result<(), u32>)
    ensures
        (code == 0 || code == 2) ==> r == Ok::<(), u32>(()),
        code != 0 && code != 2 ==> r == Err::<(), u32>(code),
{
    if code != 0 && code != 2 {
        Err(code)
    } else {
        Ok(())
    }
}

/// The two bytes of a UTF-16 code unit, low byte first.
pub open spec fn unit_le_bytes(u: u16) -> Seq<u8> {
    seq![(u % 256) as u8, (u / 256) as u8]
}

/// UTF-16 code units laid out as little-endian bytes.
pub open spec fn utf16_le_bytes(units: Seq<u16>) -> Seq<u8>
    decreases units.len(),
{
    if units.len() == 0 {
        Seq::empty()
    } else {
        utf16_le_bytes(units.drop_last()) + unit_le_bytes(units.last())
    }
}

/// The data of a registry string value: the code units, then a NUL unit, as
/// little-endian bytes.
pub open spec fn reg_sz_bytes(units: Seq<u16>) -> Seq<u8> {
    utf16_le_bytes(units.push(0u16))
}

/// The registry string data for the UTF-16 text `units` (without a terminator).
pub fn reg_sz_data(units: &Vec<u16>) -> (r: Vec<u8>)
    ensures
        r@ == reg_sz_bytes(units@),
{
    let n = units.len();
    let mut out: Vec<u8> = Vec::new();
    let mut i: usize = 0;
    assert(units@.take(0) =~= Seq::<u16>::empty());
    while i < n
        invariant
            n == units@.len(),
            i <= n,
            out@ == utf16_le_bytes(units@.take(i as int)),
        decreases n - i,
    {
        let u = units[i];
        assert(units@.take(i + 1).drop_last() =~= units@.take(i as int));
        out.push((u % 256) as u8);
        out.push((u / 256) as u8);
        i = i + 1;
        assert(out@ =~= utf16_le_bytes(units@.take(i as int)));
    }
    assert(units@.take(n as int) =~= units@);
    assert(units@.push(0u16).drop_last() =~= units@);
    out.push(0u8);
    out.push(0u8);
    assert(out@ =~= reg_sz_bytes(units@));
    out
}

/// The little-endian layout holds two bytes per unit, and each pair of bytes gives
/// the unit back.
pub proof fn law_utf16_le_round_trip(units: Seq<u16>)
    ensures
        utf16_le_bytes(units).len() == 2 * units.len(),
        forall|i: int|
            0 <= i < units.len() ==> utf16_le_bytes(units)[2 * i] + 256 * utf16_le_bytes(
                units,
            )[2 * i + 1] == #[trigger] units[i],
    decreases units.len(),
{
    if units.len() > 0 {
        let init = units.drop_last();
        law_utf16_le_round_trip(init);
        let b = utf16_le_bytes(units);
        let bi = utf16_le_bytes(init);
        assert(b == bi + unit_le_bytes(units.last()));
        assert forall|i: int| 0 <= i < units.len() implies b[2 * i] + 256 * b[2 * i + 1]
            == #[trigger] units[i] by {
            if i < init.len() {
                assert(b[2 * i] == bi[2 * i]);
                assert(b[2 * i + 1] == bi[2 * i + 1]);
                assert(init[i] == units[i]);
            } else {
                let u = units.last();
                assert(b[2 * i] == (u % 256) as u8);
                assert(b[2 * i + 1] == (u / 256) as u8);
                assert(u % 256 + 256 * (u / 256) == u);
            }
        }
    }
}

/// The registry string data is two bytes longer per unit, ends with a NUL unit, and
/// gives back every code unit of the text.
pub proof fn law_reg_sz_layout(units: Seq<u16>)
    ensures
        reg_sz_bytes(units).len() == 2 * units.len() + 2,
        reg_sz_bytes(units)[2 * units.len() as int] == 0,
        reg_sz_bytes(units)[2 * units.len() as int + 1] == 0,
        forall|i: int|
            0 <= i < units.len() ==> reg_sz_bytes(units)[2 * i] + 256 * reg_sz_bytes(
                units,
            )[2 * i + 1] == #[trigger] units[i],
{
    let p = units.push(0u16);
    law_utf16_le_round_trip(p);
    assert(p.drop_last() =~= units);
    assert(reg_sz_bytes(units) == utf16_le_bytes(units) + unit_le_bytes(0u16));
    law_utf16_le_round_trip(units);
    assert forall|i: int| 0 <= i < units.len() implies reg_sz_bytes(units)[2 * i] + 256
        * reg_sz_bytes(units)[2 * i + 1] == #[trigger] units[i] by {
        assert(p[i] == units[i]);
    }
}

} // verus!
