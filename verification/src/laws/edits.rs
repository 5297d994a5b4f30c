//! Promises about the edit form: it shows what the profile says, says what it shows, and
//! knows when the two differ.
use crate::editor;
use crate::editor::{EditForm, NetworkChoice};
use crate::host::Host;
use crate::paths;
use crate::profile;
use crate::profile::{ConfigView, NetworkBackend};
use crate::text;
use vstd::prelude::*;

verus! {

/// A form that shows a profile holds each of its values in the field of that name, and
/// nothing in the field of a value that is not there.
pub proof fn a_form_shows_the_profile(form: EditForm, cfg: ConfigView, max_players: u8)
    requires
        editor::shows(form, cfg, max_players),
    ensures
        form.name@ == cfg.name,
        form.memory_mib == cfg.memory_mib,
        form.vcpus == cfg.vcpus,
        form.transport == cfg.transport,
        form.boot_mode == cfg.boot.mode,
        cfg.boot.kernel is Some ==> form.kernel@ == cfg.boot.kernel->0,
        cfg.boot.kernel is None ==> form.kernel@.len() == 0,
        cfg.boot.initramfs is Some ==> form.initramfs@ == cfg.boot.initramfs->0,
        cfg.boot.firmware is Some ==> form.firmware@ == cfg.boot.firmware->0,
        cfg.boot.firmware is None ==> form.firmware@.len() == 0,
        cfg.boot.nvram is Some ==> form.nvram@ == cfg.boot.nvram->0,
        cfg.cdrom is Some ==> form.cdrom@ == cfg.cdrom->0,
        cfg.cdrom is None ==> form.cdrom@.len() == 0,
        form.cmdline@ == cfg.boot.cmdline,
        form.network == NetworkChoice::Off <==> cfg.network is None,
        form.network == NetworkChoice::Tap <==> cfg.network is Some && cfg.network->0.backend
            == NetworkBackend::Tap,
        cfg.network is Some && cfg.network->0.interface is Some ==> form.interface@
            == cfg.network->0.interface->0,
        cfg.network is Some && cfg.network->0.mac is Some ==> form.mac@ == cfg.network->0.mac->0,
        form.display_width == cfg.display.width,
        form.display_height == cfg.display.height,
        form.virgl == cfg.display.virgl,
        form.sound == cfg.sound.enabled,
        form.sound_backend == cfg.sound.backend,
        form.gamepad == cfg.gamepad.enabled,
        1 <= cfg.gamepad.players <= max_players ==> form.gamepad_players == cfg.gamepad.players,
        form.disks@.len() == cfg.disks.len(),
        forall|i: int|
            0 <= i < cfg.disks.len() ==> (#[trigger] form.disks@[i]).path@ == cfg.disks[i].path
                && form.disks@[i].writable == cfg.disks[i].writable,
{
    assert forall|i: int| 0 <= i < cfg.disks.len() implies (#[trigger] form.disks@[i]).path@
        == cfg.disks[i].path && form.disks@[i].writable == cfg.disks[i].writable by {
        assert(profile::disk_views(form.disks@)[i] == form.disks@[i]@);
    }
}

/// The profile that a form describes has each field's value, without the white space
/// around it, where a field that is blank means that there is none.
pub proof fn a_form_says_what_it_shows(form: EditForm)
    ensures
        ({
            let cfg = form.edited();
            &&& cfg.memory_mib == form.memory_mib
            &&& cfg.vcpus == form.vcpus
            &&& cfg.transport == form.transport
            &&& cfg.boot.mode == form.boot_mode
            &&& cfg.boot.cmdline == form.cmdline@
            &&& cfg.boot.kernel == (if text::trim_of(form.kernel@).len() == 0 {
                None
            } else {
                Some(text::trim_of(form.kernel@))
            })
            &&& cfg.boot.initramfs == (if text::trim_of(form.initramfs@).len() == 0 {
                None
            } else {
                Some(text::trim_of(form.initramfs@))
            })
            &&& cfg.boot.firmware == (if text::trim_of(form.firmware@).len() == 0 {
                None
            } else {
                Some(text::trim_of(form.firmware@))
            })
            &&& cfg.boot.nvram == (if text::trim_of(form.nvram@).len() == 0 {
                None
            } else {
                Some(text::trim_of(form.nvram@))
            })
            &&& cfg.cdrom == (if text::trim_of(form.cdrom@).len() == 0 {
                None
            } else {
                Some(text::trim_of(form.cdrom@))
            })
            &&& cfg.network is None <==> form.network == NetworkChoice::Off
            &&& form.network == NetworkChoice::Tap ==> cfg.network->0.backend == NetworkBackend::Tap
                && (text::trim_of(form.interface@).len() > 0 ==> cfg.network->0.interface == Some(
                text::trim_of(form.interface@),
            ))
            &&& form.network == NetworkChoice::Usernet ==> cfg.network->0.backend
                == NetworkBackend::Usernet && cfg.network->0.interface is None
            &&& form.network != NetworkChoice::Off && text::trim_of(form.mac@).len() > 0
                ==> cfg.network->0.mac == Some(text::trim_of(form.mac@))
            &&& cfg.display.width == form.display_width
            &&& cfg.display.height == form.display_height
            &&& cfg.display.virgl == form.virgl
            &&& cfg.sound.enabled == form.sound
            &&& cfg.sound.backend == form.sound_backend
            &&& cfg.gamepad.enabled == form.gamepad
            &&& 1 <= form.gamepad_players <= form.max_players ==> cfg.gamepad.players
                == form.gamepad_players
            &&& cfg.name == form.base.name@
            &&& cfg.disks.len() == form.disks@.len()
            &&& forall|i: int|
                0 <= i < cfg.disks.len() ==> (#[trigger] cfg.disks[i]).path
                    == form.disks@[i].path@ && cfg.disks[i].writable == form.disks@[i].writable
        }),
{
}

/// A form without a difference to save agrees with its profile in everything: each value
/// is equal, each path leads to the same place, and the backend is the one it opened with.
pub proof fn a_clean_form_changes_nothing(form: EditForm, host: Host)
    requires
        !form.is_dirty(host, true),
    ensures
        form.backend == form.base_backend,
        form.memory_mib == form.base.memory_mib,
        form.vcpus == form.base.vcpus,
        form.transport == form.base.transport,
        form.boot_mode == form.base.boot.mode,
        form.cmdline@ == form.base.boot.cmdline@,
        form.display_width == form.base.display.width,
        form.display_height == form.base.display.height,
        form.virgl == form.base.display.virgl,
        form.sound == form.base.sound.enabled,
        form.sound_backend == form.base.sound.backend,
        form.gamepad == form.base.gamepad.enabled,
        form.network == NetworkChoice::Off <==> form.base.network is None,
        form.disks@.len() == form.base.disks@.len(),
        forall|i: int|
            0 <= i < form.disks@.len() ==> (#[trigger] form.disks@[i]).writable
                == form.base.disks@[i].writable && paths::same_path(
                host,
                form.disks@[i].path@,
                form.base.disks@[i].path@,
            ),
        text::trim_of(form.kernel@).len() == 0 <==> form.base.boot.kernel is None,
        form.base.boot.kernel is Some ==> paths::same_path(
            host,
            text::trim_of(form.kernel@),
            form.base.boot.kernel->0@,
        ),
        form.base.boot.initramfs is Some ==> paths::same_path(
            host,
            text::trim_of(form.initramfs@),
            form.base.boot.initramfs->0@,
        ),
        text::trim_of(form.firmware@).len() == 0 <==> form.base.boot.firmware is None,
        form.base.boot.firmware is Some ==> paths::same_path(
            host,
            text::trim_of(form.firmware@),
            form.base.boot.firmware->0@,
        ),
        text::trim_of(form.nvram@).len() == 0 <==> form.base.boot.nvram is None,
        form.base.boot.nvram is Some ==> paths::same_path(
            host,
            text::trim_of(form.nvram@),
            form.base.boot.nvram->0@,
        ),
        text::trim_of(form.cdrom@).len() == 0 <==> form.base.cdrom is None,
        form.base.cdrom is Some ==> paths::same_path(
            host,
            text::trim_of(form.cdrom@),
            form.base.cdrom->0.path@,
        ),
{
    let a = form.edited().disks;
    let b = form.base@.disks;
    assert forall|i: int| 0 <= i < form.disks@.len() implies (#[trigger] form.disks@[i]).writable
        == form.base.disks@[i].writable && paths::same_path(
        host,
        form.disks@[i].path@,
        form.base.disks@[i].path@,
    ) by {
        assert(a[i] == form.disks@[i]@);
        assert(b[i] == form.base.disks@[i]@);
    }
}

/// A form that is no valid profile, or that moves the machine to another backend, always
/// has something to save.
pub proof fn an_invalid_form_is_not_clean(form: EditForm, host: Host, valid: bool)
    ensures
        !valid || form.backend != form.base_backend ==> form.is_dirty(host, valid),
{
}

/// A number of players stays what it is where a machine can have it, and becomes the
/// nearest that one can have otherwise.
pub proof fn players_are_brought_into_range(n: u8, max: u8)
    requires
        max >= 1,
    ensures
        1 <= editor::players_of(n, max) <= max,
        1 <= n <= max ==> editor::players_of(n, max) == n,
        n > max ==> editor::players_of(n, max) == max,
        n == 0 ==> editor::players_of(n, max) == 1,
{
}

/// A path in a form leads where the engine would look: as given when it is absolute, from
/// the working directory otherwise.
pub proof fn form_paths_lead_where_the_engine_looks(form: EditForm, host: Host, value: Seq<char>)
    ensures
        paths::is_absolute_of(host, text::trim_of(value)) ==> form.spec_resolve(host, value)
            == text::trim_of(value),
        !paths::is_absolute_of(host, text::trim_of(value)) ==> form.spec_resolve(host, value)
            == paths::joined(host, form.work_dir@, text::trim_of(value)),
{
}

} // verus!
