//! Promises about a run in the virtual machine host: the devices that a machine gets,
//! what its kernel is told, and what the run comes to.
use crate::profile;
use crate::profile::{DiskSection, DiskView};
use crate::run_vm;
use crate::run_vm::{DeviceView, TapSection};
use crate::text;
use vstd::prelude::*;

verus! {

/// Each disk of a machine becomes the block device of the same number, opened as the
/// profile declares it; the network, if there is one, follows them, and the display,
/// the keyboard and the tablet are always there, last.
pub proof fn every_disk_becomes_its_device(disks: Seq<DiskSection>, network: Option<TapSection>)
    ensures
        ({
            let plan = run_vm::devices_of(profile::disk_views(disks), network);
            let after: int = if network is Some {
                disks.len() as int + 1
            } else {
                disks.len() as int
            };
            &&& plan.len() == after + 3
            &&& forall|i: int|
                0 <= i < disks.len() ==> (#[trigger] plan[i]) is Block && plan[i]->Block_0.path
                    == disks[i].path@ && plan[i]->Block_0.writable == disks[i].writable
            &&& network matches Some(net) ==> (plan[disks.len() as int] matches DeviceView::Net {
                interface,
                mac,
            } && interface == net.interface@ && (net.mac is None ==> mac is None) && (net.mac matches
                Some(m) ==> mac == Some(m@)))
            &&& plan[after] is Gpu
            &&& plan[after + 1] is Keyboard
            &&& plan[after + 2] is Tablet
        }),
{
    let views = profile::disk_views(disks);
    let blocks = views.map_values(|d: DiskView| DeviceView::Block(d));
    assert(blocks.len() == disks.len());
    let plan = run_vm::devices_of(views, network);
    assert forall|i: int| 0 <= i < disks.len() implies (#[trigger] plan[i]) is Block
        && plan[i]->Block_0.path == disks[i].path@ && plan[i]->Block_0.writable
        == disks[i].writable by {
        assert(plan[i] == blocks[i]);
        assert(views[i] == disks[i]@);
    }
}

/// The kernel is told its own command line first and its devices after it, a space
/// apart, and neither is told twice or left out.
pub proof fn the_kernel_is_told_of_its_devices(configured: Seq<char>, clauses: Seq<char>)
    ensures
        ({
            let told = run_vm::cmdline_of(configured, clauses);
            let own = text::trim_of(configured);
            &&& told.take(own.len() as int) == own
            &&& told.len() >= clauses.len()
            &&& told.skip(told.len() - clauses.len()) == clauses
            &&& if own.len() > 0 && clauses.len() > 0 {
                told.len() == own.len() + 1 + clauses.len() && told[own.len() as int] == ' '
            } else {
                told.len() == own.len() + clauses.len()
            }
        }),
{
    let own = text::trim_of(configured);
    let told = run_vm::cmdline_of(configured, clauses);
    reveal_strlit(" ");
    assert(told.take(own.len() as int) =~= own);
    assert(told.skip(told.len() - clauses.len()) =~= clauses);
}

/// A failed run is reported as the failure of the last processor that failed, by its
/// number and in its own words; a run without one is no failure.
pub proof fn the_last_failure_is_reported(outcomes: Seq<Result<(), String>>, i: int)
    requires
        0 <= i < outcomes.len(),
        outcomes[i] is Err,
        forall|j: int| i < j < outcomes.len() ==> (#[trigger] outcomes[j]) is Ok,
    ensures
        run_vm::failure_of(outcomes) == Some(
            "vCPU "@ + text::decimal_of(i as nat) + " failed: "@ + outcomes[i]->Err_0@,
        ),
    decreases outcomes.len(),
{
    if i < outcomes.len() - 1 {
        assert(outcomes[outcomes.len() - 1] is Ok);
        let init = outcomes.drop_last();
        assert forall|j: int| i < j < init.len() implies (#[trigger] init[j]) is Ok by {
            assert(init[j] == outcomes[j]);
        }
        the_last_failure_is_reported(init, i);
    }
}

/// The value of a hexadecimal digit is its place among them, in either case.
pub proof fn hexadecimal_digits_count_up(n: int)
    requires
        0 <= n < 16,
    ensures
        run_vm::hex_digit("0123456789abcdef"@[n]) == Some(n as nat),
        run_vm::hex_digit("0123456789ABCDEF"@[n]) == Some(n as nat),
{
    reveal_strlit("0123456789abcdef");
    reveal_strlit("0123456789ABCDEF");
}

/// Two hexadecimal digits are an octet, the first of them worth sixteen of the
/// second, so every byte can be written and reads back as itself.
pub proof fn octets_read_back(hi: int, lo: int)
    requires
        0 <= hi < 16,
        0 <= lo < 16,
    ensures
        run_vm::octet_of(seq!["0123456789abcdef"@[hi], "0123456789abcdef"@[lo]]) == Some(
            (16 * hi + lo) as nat,
        ),
        run_vm::octet_of(seq!["0123456789ABCDEF"@[hi], "0123456789ABCDEF"@[lo]]) == Some(
            (16 * hi + lo) as nat,
        ),
{
    hexadecimal_digits_count_up(hi);
    hexadecimal_digits_count_up(lo);
    reveal_strlit("0123456789abcdef");
    reveal_strlit("0123456789ABCDEF");
    reveal_with_fuel(run_vm::hex_of, 3);
    let a = seq!["0123456789abcdef"@[hi], "0123456789abcdef"@[lo]];
    let b = seq!["0123456789ABCDEF"@[hi], "0123456789ABCDEF"@[lo]];
    assert(a.drop_last() =~= seq![a[0]]);
    assert(a.drop_last().drop_last() =~= Seq::<char>::empty());
    assert(b.drop_last() =~= seq![b[0]]);
    assert(b.drop_last().drop_last() =~= Seq::<char>::empty());
}

/// Nothing but hexadecimal digits makes an octet.
pub proof fn other_characters_are_no_digits(c: char)
    requires
        !('0' <= c <= '9'),
        !('a' <= c <= 'f'),
        !('A' <= c <= 'F'),
    ensures
        run_vm::hex_digit(c) is None,
{
}

} // verus!
