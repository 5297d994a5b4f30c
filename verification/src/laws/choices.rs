//! Promises about forms and choices: what they offer, note and warn of.
use crate::discovery;
use crate::discovery::DiskRow;
use crate::forms;
use crate::host::Host;
use crate::paths;
use crate::picker;
use crate::picker::{FileFilter, PickTarget};
use crate::state::{DeleteDiskState, MoveDiskState};
use crate::table;
use crate::text;
use vstd::prelude::*;

verus! {

/// A path is noted with its size where there is a file, and as not found where there is
/// none.
pub proof fn a_path_is_noted_as_it_is(path: Seq<char>, bytes: Option<u64>, missing: Seq<char>)
    ensures
        ({
            let notes = forms::path_note_views(path, bytes, missing);
            &&& bytes is Some ==> notes.len() == 1 && notes[0].ink is Good && text::begins_with(
                notes[0].text,
                "found: "@ + path,
            ) && text::holds(notes[0].text, discovery::bytes_shown(bytes->0 as nat))
            &&& bytes is None ==> notes[0].ink is Warn && notes[0].text == "not found: "@ + path
                && notes.len() == (if missing.len() > 0 {
                2int
            } else {
                1
            })
            &&& bytes is None && missing.len() > 0 ==> notes[1].text == missing
        }),
{
    if let Some(n) = bytes {
        let said = forms::path_note_views(path, bytes, missing)[0].text;
        let head = "found: "@ + path;
        assert(said.subrange(0, head.len() as int) =~= head);
        text::lemma_held(head + "  ("@, discovery::bytes_shown(n as nat), ")"@);
    }
}

/// The images that are offered are those that are there and lie directly among the
/// machines, each by its own name.
pub proof fn offered_images_lie_among_the_machines(
    host: Host,
    vm_dir: Seq<char>,
    rows: Seq<DiskRow>,
    name: Seq<char>,
)
    ensures
        (exists|k: int|
            0 <= k < forms::choices(host, vm_dir, rows).len() && (#[trigger] forms::choices(
                host,
                vm_dir,
                rows,
            )[k]).0 == name) <==> exists|i: int|
            0 <= i < rows.len() && (#[trigger] rows[i]).exists && paths::file_name_of(
                host,
                rows[i].path@,
            ) == Some(name) && paths::parent_of(host, rows[i].path@) is Some && paths::same_path(
                host,
                paths::parent_of(host, rows[i].path@)->0,
                vm_dir,
            ),
    decreases rows.len(),
{
    let all = forms::choices(host, vm_dir, rows);
    if rows.len() > 0 {
        let init = rows.drop_last();
        let last = rows.len() - 1;
        offered_images_lie_among_the_machines(host, vm_dir, init, name);
        let before = forms::choices(host, vm_dir, init);
        assert forall|i: int| 0 <= i < last implies #[trigger] init[i] == rows[i] by {}
        assert forall|k: int| 0 <= k < before.len() implies #[trigger] all[k] == before[k] by {}
        if exists|k: int| 0 <= k < all.len() && (#[trigger] all[k]).0 == name {
            let k = choose|k: int| 0 <= k < all.len() && (#[trigger] all[k]).0 == name;
            if k < before.len() {
                assert(before[k].0 == name);
                let i = choose|i: int|
                    0 <= i < init.len() && (#[trigger] init[i]).exists && paths::file_name_of(
                        host,
                        init[i].path@,
                    ) == Some(name) && paths::parent_of(host, init[i].path@) is Some
                        && paths::same_path(
                        host,
                        paths::parent_of(host, init[i].path@)->0,
                        vm_dir,
                    );
                assert(rows[i].exists);
            } else {
                assert(rows[last].exists);
            }
        }
        if exists|i: int|
            0 <= i < rows.len() && (#[trigger] rows[i]).exists && paths::file_name_of(
                host,
                rows[i].path@,
            ) == Some(name) && paths::parent_of(host, rows[i].path@) is Some && paths::same_path(
                host,
                paths::parent_of(host, rows[i].path@)->0,
                vm_dir,
            ) {
            let i = choose|i: int|
                0 <= i < rows.len() && (#[trigger] rows[i]).exists && paths::file_name_of(
                    host,
                    rows[i].path@,
                ) == Some(name) && paths::parent_of(host, rows[i].path@) is Some
                    && paths::same_path(
                    host,
                    paths::parent_of(host, rows[i].path@)->0,
                    vm_dir,
                );
            if i < last {
                assert(init[i].exists);
                let k = choose|k: int| 0 <= k < before.len() && (#[trigger] before[k]).0 == name;
                assert(all[k].0 == name);
            } else {
                assert(all[all.len() - 1].0 == name);
            }
        }
    }
}

/// A deletion tells each file that goes: the image, and its variable store where it has one;
/// and whose disk it still is.
pub proof fn a_deletion_tells_each_file(s: DeleteDiskState, sidecar: Seq<char>)
    ensures
        ({
            let lines = forms::disk_deletion_lines(s, sidecar);
            &&& text::holds(lines[0].text, s.row.path@)
            &&& s.row.nvram ==> lines.len() > 1 && text::holds(lines[1].text, sidecar)
            &&& s.row.attachments@.len() > 0 ==> lines.last().ink is Warn && text::holds(
                lines.last().text,
                text::join_of(forms::attaching(s.row.attachments@), ", "@),
            )
            &&& lines.len() == 1 + (if s.row.nvram {
                1int
            } else {
                0
            }) + (if s.row.attachments@.len() > 0 {
                1int
            } else {
                0
            })
        }),
{
    let lines = forms::disk_deletion_lines(s, sidecar);
    let size = discovery::bytes_shown(s.row.apparent_bytes as nat);
    text::lemma_held("− "@, s.row.path@, "  ("@ + size + ")"@);
    assert("− "@ + s.row.path@ + ("  ("@ + size + ")"@) =~= lines[0].text);
    text::lemma_held("− "@, sidecar, "  (UEFI variable store — deleted with the disk)"@);
    text::lemma_held(
        "Still attached to "@,
        text::join_of(forms::attaching(s.row.attachments@), ", "@),
        " — detach it there first"@,
    );
}

/// The machines that a list of attachments names are named one for one.
pub proof fn attachments_are_named(list: Seq<discovery::DiskAttachment>, i: int)
    requires
        0 <= i < list.len(),
    ensures
        forms::attaching(list).len() == list.len(),
        forms::attaching(list)[i] == list[i].vm@,
{
}

/// A move tells what moves and which profiles follow.
pub proof fn a_move_tells_what_moves(s: MoveDiskState, sidecar: Seq<char>, i: int)
    requires
        0 <= i < s.row.attachments@.len(),
    ensures
        ({
            let lines = forms::move_lines_of(s, sidecar);
            let k: int = if s.row.nvram {
                2
            } else {
                1
            };
            &&& lines.len() == k + s.row.attachments@.len()
            &&& lines[0] == "− "@ + s.row.path@
            &&& s.row.nvram ==> text::holds(lines[1], sidecar)
            &&& text::holds(lines[k + i], s.row.attachments@[i].vm@)
        }),
{
    let lines = forms::move_lines_of(s, sidecar);
    let k: int = if s.row.nvram {
        2
    } else {
        1
    };
    let vm = s.row.attachments@[i].vm@;
    text::lemma_held("− "@, sidecar, "  (moves along)"@);
    text::lemma_held("profile of "@ + "'"@, vm, "'"@ + " will be updated"@);
    assert("profile of "@ + "'"@ + vm + ("'"@ + " will be updated"@) =~= lines[k + i]);
}

/// Too little room for the data is wrong, too little for the whole image is warned of.
pub proof fn room_is_judged(data: u64, apparent: u64, free: u64)
    ensures
        free < data <==> forms::space_view(data, apparent, free).ink is Bad,
        data <= free < apparent <==> forms::space_view(data, apparent, free).ink is Warn,
        text::begins_with(
            forms::space_view(data, apparent, free).text,
            discovery::bytes_shown(free as nat),
        ),
{
    let said = forms::space_view(data, apparent, free).text;
    let head = discovery::bytes_shown(free as nat);
    assert(said.subrange(0, head.len() as int) =~= head);
}

/// What a move costs is told once it is known, with the room at its end.
pub proof fn a_move_tells_its_cost(bill: Option<(u64, u64)>, free: Option<u64>)
    ensures
        bill is None ==> forms::move_note_views(bill, free).len() == 0,
        bill matches Some((data, apparent)) ==> {
            let notes = forms::move_note_views(bill, free);
            &&& text::begins_with(notes[0].text, "copies "@ + discovery::bytes_shown(data as nat))
            &&& text::ends_with(notes[0].text, discovery::bytes_shown(apparent as nat))
            &&& free is None ==> notes.len() == 1
            &&& free matches Some(room) ==> notes.len() == 2 && notes[1] == forms::space_view(
                data,
                apparent,
                room,
            )
        },
{
    if let Some((data, apparent)) = bill {
        let said = forms::move_note_views(bill, free)[0].text;
        let head = "copies "@ + discovery::bytes_shown(data as nat);
        let tail = discovery::bytes_shown(apparent as nat);
        assert(said.subrange(0, head.len() as int) =~= head);
        assert(said.subrange(said.len() - tail.len(), said.len() as int) =~= tail);
    }
}

/// A move can start when it has a place and none runs, and be left while none runs.
pub proof fn a_move_starts_with_a_place(s: MoveDiskState)
    ensures
        forms::move_button_views(s).len() == 2,
        forms::move_button_views(s)[0].action is SubmitMoveDisk,
        forms::move_button_views(s)[0].enabled <==> !s.running && text::trim_of(s.dest@).len() > 0,
        forms::move_button_views(s)[1].action is CloseModal,
        forms::move_button_views(s)[1].enabled <==> !s.running,
{
}

/// A table gives back what was entered last under a name, and nothing for another.
pub proof fn tables_give_back_the_last_entry(
    rows: Seq<(String, u64)>,
    key: String,
    value: u64,
    other: Seq<char>,
)
    ensures
        table::table_of(rows.push((key, value))).contains_key(key@),
        table::table_of(rows.push((key, value)))[key@] == value,
        other != key@ ==> (table::table_of(rows.push((key, value))).contains_key(other)
            <==> table::table_of(rows).contains_key(other)),
        other != key@ && table::table_of(rows).contains_key(other) ==> table::table_of(
            rows.push((key, value)),
        )[other] == table::table_of(rows)[other],
        !table::table_of(Seq::<(String, u64)>::empty()).contains_key(other),
{
    assert(rows.push((key, value)).drop_last() =~= rows);
}

/// Directories are chosen for what is a directory, files for the rest.
pub proof fn directories_are_chosen_for_directories(target: PickTarget)
    ensures
        picker::kind_of(target) is Directory <==> target is VmDir || target is WorkDir || target
            is MoveDestination,
        picker::filter_of(target) is Some ==> picker::kind_of(target) is File,
        picker::filter_of(target) == Some(FileFilter::InstallerImages) <==> target is WizardIso
            || target is EditorCdrom,
        picker::filter_of(target) == Some(FileFilter::DiskImages) <==> target is WizardDisk
            || target is EditorAddDisk,
        picker::filter_of(target) == Some(FileFilter::Firmware) <==> target is EditorFirmware,
        picker::filter_of(target) == Some(FileFilter::VariableStores) <==> target is EditorNvram,
{
}

/// Each filter lets its own kinds of file through.
pub proof fn filters_let_their_files_through(filter: FileFilter, ext: Seq<char>)
    ensures
        filter.spec_extensions().contains(ext) <==> {
            ||| filter is DiskImages && (ext == "raw"@ || ext == "img"@)
            ||| filter is InstallerImages && ext == "iso"@
            ||| filter is Firmware && (ext == "fd"@ || ext == "bin"@ || ext == "rom"@)
            ||| filter is VariableStores && (ext == "nvram"@ || ext == "fd"@)
        },
{
    let all = filter.spec_extensions();
    assert(all.len() > 0 ==> all.contains(all[0]));
    assert(all.len() > 1 ==> all.contains(all[1]));
    assert(all.len() > 2 ==> all.contains(all[2]));
}

/// A choice opens in the nearest directory that is there.
pub proof fn the_nearest_directory_opens(chain: Seq<Seq<char>>, exist: Seq<bool>, i: int)
    requires
        0 <= i < chain.len(),
        i < exist.len(),
        exist[i],
        forall|j: int| 0 <= j < i ==> !#[trigger] exist[j],
    ensures
        picker::nearest(chain, exist) == chain[i],
    decreases chain.len(),
{
    if i > 0 {
        assert(!exist[0]);
        let rest = exist.drop_first();
        assert(rest[i - 1] == exist[i]);
        assert forall|j: int| 0 <= j < i - 1 implies !#[trigger] rest[j] by {
            assert(rest[j] == exist[j + 1]);
        }
        assert(chain.drop_first()[i - 1] == chain[i]);
        the_nearest_directory_opens(chain.drop_first(), rest, i - 1);
    }
}

/// The attachments of a disk are those of its row; a disk that is not listed has none.
pub proof fn attachments_are_those_of_the_row(app: crate::state::ManagerApp, path: Seq<char>)
    ensures
        app.spec_disk(path) matches Some(row) ==> forms::attachments_at(app, path)
            == row.attachments@,
        app.spec_disk(path) is None ==> forms::attachments_at(app, path).len() == 0,
{
}

/// Each choice says what is chosen, and no two kinds of choice but those of a disk image say
/// the same.
pub proof fn choices_say_what_is_chosen(target: PickTarget)
    ensures
        target is EngineBinary ==> picker::title_of(target) == "Locate the Entangled engine"@,
        target is VmDir ==> picker::title_of(target) == "Where your machines are kept"@,
        target is WorkDir ==> picker::title_of(target) == "Working directory for machines"@,
        target is WizardIso ==> picker::title_of(target) == "Choose an installer image"@,
        target is WizardDisk || target is EditorAddDisk ==> picker::title_of(target)
            == "Choose a disk image"@,
        target is EditorKernel ==> picker::title_of(target) == "Choose a Linux kernel image"@,
        target is EditorInitramfs ==> picker::title_of(target) == "Choose an initramfs"@,
        target is EditorFirmware ==> picker::title_of(target) == "Choose the UEFI firmware"@,
        target is EditorNvram ==> picker::title_of(target)
            == "Choose this machine's UEFI settings file"@,
        target is EditorCdrom ==> picker::title_of(target) == "Choose an installer disc image"@,
        target is MoveDestination ==> picker::title_of(target) == "Move the disk image to"@,
{
}

} // verus!
