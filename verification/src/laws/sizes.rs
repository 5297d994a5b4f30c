//! Promises about sizes: what a text of one means, and how one is shown.
use crate::discovery;
use crate::disk;
use crate::text;
use vstd::prelude::*;

verus! {

/// A number with a suffix is that many of what the suffix stands for, as long as the
/// bytes fit; the case of the suffix does not matter.
pub proof fn suffixes_multiply(n: u64, suffix: char)
    requires
        suffix == 'K' || suffix == 'k' || suffix == 'M' || suffix == 'm' || suffix == 'G' || suffix
            == 'g' || suffix == 'T' || suffix == 't',
    ensures
        ({
            let unit: nat = if suffix == 'K' || suffix == 'k' {
                1024
            } else if suffix == 'M' || suffix == 'm' {
                1024 * 1024
            } else if suffix == 'G' || suffix == 'g' {
                1024 * 1024 * 1024
            } else {
                1024 * 1024 * 1024 * 1024
            };
            disk::size_of(text::decimal_of(n as nat).push(suffix)) == (if n * unit <= u64::MAX {
                Some((n as nat) * unit)
            } else {
                None::<nat>
            })
        }),
{
    let digits = text::decimal_of(n as nat);
    let s = digits.push(suffix);
    text::decimal_reads_back(n as nat, u64::MAX as nat);
    assert(text::trim_of(s) == s) by {
        assert(text::is_digit(digits[0]));
        assert(s[0] == digits[0]);
        assert(!text::is_white(s[0]));
        assert(s.last() == suffix);
        assert(!text::is_white(s.last()));
        assert(text::trim_start_of(s) == s);
        assert(text::trim_end_of(s) == s);
    }
    assert(s.drop_last() =~= digits);
}

/// An image has a size that can be made exactly when it is some sectors of 512 bytes.
pub proof fn images_have_whole_sectors(bytes: u64)
    ensures
        disk::aligned(bytes) <==> exists|k: int| k > 0 && bytes == #[trigger] (512 * k),
{
    if disk::aligned(bytes) {
        let k = bytes as int / 512;
        assert(bytes == 512 * k);
    }
}

/// A size is shown in the largest unit of which there is at least one.
pub proof fn the_largest_unit_is_chosen(bytes: nat)
    requires
        bytes <= u64::MAX,
    ensures
        bytes < 1024 ==> discovery::unit_steps(bytes) == 0,
        0x400 <= bytes < 0x10_0000 ==> discovery::unit_steps(bytes) == 1,
        0x10_0000 <= bytes < 0x4000_0000 ==> discovery::unit_steps(bytes) == 2,
        0x4000_0000 <= bytes < 0x100_0000_0000 ==> discovery::unit_steps(bytes) == 3,
        0x100_0000_0000 <= bytes < 0x4_0000_0000_0000 ==> discovery::unit_steps(bytes) == 4,
        0x4_0000_0000_0000 <= bytes < 0x1000_0000_0000_0000 ==> discovery::unit_steps(bytes) == 5,
        0x1000_0000_0000_0000 <= bytes ==> discovery::unit_steps(bytes) == 6,
{
    reveal_with_fuel(discovery::unit_steps, 8);
}

/// What is shown ends with the unit, and whole bytes are shown as they are.
pub proof fn sizes_are_shown_with_their_unit(bytes: nat)
    requires
        bytes <= u64::MAX,
    ensures
        bytes < 1024 ==> discovery::bytes_shown(bytes) == text::decimal_of(bytes) + " B"@,
        0x400 <= bytes < 0x10_0000 ==> text::ends_with(discovery::bytes_shown(bytes), " KiB"@),
        0x10_0000 <= bytes < 0x4000_0000 ==> text::ends_with(
            discovery::bytes_shown(bytes),
            " MiB"@,
        ),
        0x4000_0000 <= bytes < 0x100_0000_0000 ==> text::ends_with(
            discovery::bytes_shown(bytes),
            " GiB"@,
        ),
        0x100_0000_0000 <= bytes < 0x4_0000_0000_0000 ==> text::ends_with(
            discovery::bytes_shown(bytes),
            " TiB"@,
        ),
{
    the_largest_unit_is_chosen(bytes);
    reveal_strlit(" ");
    reveal_strlit("B");
    reveal_strlit(" B");
    reveal_strlit("KiB");
    reveal_strlit(" KiB");
    reveal_strlit("MiB");
    reveal_strlit(" MiB");
    reveal_strlit("GiB");
    reveal_strlit(" GiB");
    reveal_strlit("TiB");
    reveal_strlit(" TiB");
    let said = discovery::bytes_shown(bytes);
    if bytes < 1024 {
        assert(text::decimal_of(bytes) + " "@ + "B"@ =~= text::decimal_of(bytes) + " B"@);
    } else if bytes < 0x10_0000 {
        assert(said.subrange(said.len() - 4, said.len() as int) =~= " KiB"@);
    } else if bytes < 0x4000_0000 {
        assert(said.subrange(said.len() - 4, said.len() as int) =~= " MiB"@);
    } else if bytes < 0x100_0000_0000 {
        assert(said.subrange(said.len() - 4, said.len() as int) =~= " GiB"@);
    } else if bytes < 0x4_0000_0000_0000 {
        assert(said.subrange(said.len() - 4, said.len() as int) =~= " TiB"@);
    }
}

/// Rounding goes to the nearest number, and to the even one of two that are as near.
pub proof fn rounding_goes_to_the_nearest(n: nat, d: nat)
    requires
        d > 0,
    ensures
        2 * (discovery::rounded(n, d) * d) <= 2 * n + d,
        2 * n <= 2 * (discovery::rounded(n, d) * d) + d,
        2 * (discovery::rounded(n, d) * d) == 2 * n + d || 2 * n == 2 * (discovery::rounded(n, d)
            * d) + d ==> discovery::rounded(n, d) % 2 == 0,
{
    let q = n / d;
    let rest = n % d;
    vstd::arithmetic::div_mod::lemma_fundamental_div_mod(n as int, d as int);
    assert(d * q == q * d) by (nonlinear_arith);
    assert((q + 1) * d == q * d + d) by (nonlinear_arith);
}

/// Each unit is 1024 of the one below, and the first is one byte.
pub proof fn units_are_powers(steps: nat)
    ensures
        discovery::unit_bytes(0) == 1,
        discovery::unit_bytes(steps + 1) == 1024 * discovery::unit_bytes(steps),
{
}

/// Units have their names.
pub proof fn units_have_their_names(steps: nat)
    ensures
        steps == 0 ==> discovery::unit_name(steps) == "B"@,
        steps == 1 ==> discovery::unit_name(steps) == "KiB"@,
        steps == 2 ==> discovery::unit_name(steps) == "MiB"@,
        steps == 3 ==> discovery::unit_name(steps) == "GiB"@,
        steps == 4 ==> discovery::unit_name(steps) == "TiB"@,
        steps == 5 ==> discovery::unit_name(steps) == "PiB"@,
        steps == 6 ==> discovery::unit_name(steps) == "EiB"@,
{
}

/// A size below a hundred of its unit is shown to the tenth, a larger one to the whole.
pub proof fn sizes_are_shown_to_the_tenth(bytes: nat)
    requires
        1024 <= bytes <= u64::MAX,
    ensures
        ({
            let steps = discovery::unit_steps(bytes);
            let unit = discovery::unit_bytes(steps);
            let tenths = discovery::rounded(10 * bytes, unit);
            &&& bytes >= 100 * unit ==> discovery::bytes_shown(bytes) == text::decimal_of(
                discovery::rounded(bytes, unit),
            ) + " "@ + discovery::unit_name(steps)
            &&& bytes < 100 * unit ==> discovery::bytes_shown(bytes) == text::decimal_of(
                tenths / 10,
            ) + "."@ + text::decimal_of(tenths % 10) + " "@ + discovery::unit_name(steps)
        }),
{
    the_largest_unit_is_chosen(bytes);
}

} // verus!
