//! Promises about newer releases and about what the manager remembers.
use crate::backend::Backend;
use crate::host::Host;
use crate::paths;
use crate::settings;
use crate::settings::Settings;
use crate::text;
use crate::update;
use crate::update::{ApiAsset, ApiRelease, Version};
use vstd::prelude::*;

verus! {

/// A release is offered exactly when it is final, its tag is a version, and that version
/// is later than this one.
pub proof fn only_a_later_final_release_is_offered(release: ApiRelease, current: Version)
    ensures
        update::offer_of(release, current) matches Ok(Some(_)) <==> {
            &&& !release.draft
            &&& !release.prerelease
            &&& update::version_of(release.tag_name@) is Some
            &&& {
                let v = update::version_of(release.tag_name@)->0;
                ||| v.major > current.major
                ||| v.major == current.major && v.minor > current.minor
                ||| v.major == current.major && v.minor == current.minor && v.patch > current.patch
            }
        },
        update::offer_of(release, current) is Err <==> !release.draft && !release.prerelease
            && update::version_of(release.tag_name@) is None,
        update::offer_of(release, current) matches Ok(Some(info)) ==> {
            &&& Some(info.version) == update::version_of(release.tag_name@)
            &&& info.page_url == release.html_url
            &&& info.installer_url is Some <==> exists|i: int|
                0 <= i < release.assets@.len() && update::names_installer(
                    (#[trigger] release.assets@[i]).name@,
                )
        },
{
    the_first_installer_is_offered(release.assets@);
}

/// The installer that is offered is the first asset that is one, under its own name and
/// from its own address.
pub proof fn the_first_installer_is_offered(assets: Seq<ApiAsset>)
    ensures
        update::installer_of(assets) is None <==> forall|i: int|
            0 <= i < assets.len() ==> !update::names_installer((#[trigger] assets[i]).name@),
        update::installer_of(assets) matches Some(a) ==> update::names_installer(a.name@)
            && assets.contains(a),
    decreases assets.len(),
{
    if assets.len() > 0 {
        if update::names_installer(assets[0].name@) {
            assert(assets[0] == assets[0]);
        } else {
            let rest = assets.drop_first();
            the_first_installer_is_offered(rest);
            assert forall|i: int| 0 < i < assets.len() implies #[trigger] assets[i] == rest[i - 1] by {}
            if let Some(a) = update::installer_of(assets) {
                let k = choose|k: int| 0 <= k < rest.len() && rest[k] == a;
                assert(assets[k + 1] == a);
            }
        }
    }
}

/// The offer names the installer's file and address as the same asset gives them.
pub proof fn an_offer_is_of_one_asset(release: ApiRelease, current: Version)
    ensures
        update::offer_of(release, current) matches Ok(Some(info)) ==> (info.installer_url is Some
            <==> info.installer_name is Some) && (info.installer_url is Some ==> exists|i: int|
            0 <= i < release.assets@.len() && (
            #[trigger] release.assets@[i]).browser_download_url == info.installer_url->0
                && release.assets@[i].name == info.installer_name->0),
{
    the_first_installer_is_offered(release.assets@);
    if let Some(a) = update::installer_of(release.assets@) {
        let k = choose|k: int| 0 <= k < release.assets@.len() && release.assets@[k] == a;
        assert(release.assets@[k] == a);
    }
}

/// An installer is an executable with "setup" in its name, in whatever case.
pub proof fn installers_are_named_as_such(name: Seq<char>)
    ensures
        update::names_installer(name) ==> text::holds(text::lower_of(name), "setup"@) && name.len()
            >= 5 && text::lower_of(name).skip(name.len() - 4) == ".exe"@,
{
    reveal_strlit("setup");
    reveal_strlit(".exe");
    let l = text::lower_of(name);
    if update::names_installer(name) {
        let at = choose|at: int| text::stands_at(l, "setup"@, at);
        assert(l.skip(l.len() - 4) =~= l.subrange(l.len() - 4, l.len() as int));
    }
}

/// A suffix of a version does not count: it reads like the version without it.
pub proof fn suffixes_do_not_count(s: Seq<char>, suffix: Seq<char>, sign: char)
    requires
        sign == '-' || sign == '+',
        forall|i: int| 0 <= i < s.len() ==> (#[trigger] s[i]) != '-' && s[i] != '+',
    ensures
        update::core_of(s + seq![sign] + suffix) == s,
        update::core_of(s) == s,
    decreases s.len(),
{
    let all = s + seq![sign] + suffix;
    if s.len() > 0 {
        let rest = s.drop_first();
        assert forall|i: int| 0 <= i < rest.len() implies (#[trigger] rest[i]) != '-' && rest[i]
            != '+' by {
            assert(rest[i] == s[i + 1]);
        }
        suffixes_do_not_count(rest, suffix, sign);
        assert(all.drop_first() =~= rest + seq![sign] + suffix);
        assert(all[0] == s[0]);
        assert(seq![s[0]] + rest =~= s);
    } else {
        assert(all[0] == sign);
        assert(s =~= Seq::<char>::empty());
    }
}

/// A fresh installation asks for updates, moves, installs in a window, and gives a new
/// machine two processors, two gibibytes and a disk of sixteen, natively.
pub proof fn fresh_settings_are_modest(s: Settings)
    requires
        settings::has_defaults(s),
    ensures
        s.entangled_binary is None,
        s.work_dir is None,
        s.wsl_entangled is None,
        !s.headless_install,
        s.check_updates_on_startup,
        s.animations_enabled,
        s.default_memory_mib == 2048,
        s.default_vcpus == 2,
        s.default_disk_gib == 16,
        s.default_variant@ == "text-netboot"@,
        s.default_backend == Backend::Native,
        s.wsl_distro@ == "Ubuntu"@,
        forall|name: Seq<char>| !s.vm_backends@.contains_key(name),
{
}

/// A machine runs where it was set to run, and without a setting of its own where new ones
/// do; a host without WSL runs it natively.
pub proof fn a_machine_runs_where_it_was_set_to(s: Settings, vm: Seq<char>, host: Host)
    ensures
        host != Host::Windows ==> s.spec_backend_for(vm, host) == Backend::Native,
        host == Host::Windows && s.vm_backends@.contains_key(vm) ==> s.spec_backend_for(vm, host)
            == s.vm_backends@[vm],
        host == Host::Windows && !s.vm_backends@.contains_key(vm) ==> s.spec_backend_for(vm, host)
            == s.default_backend,
{
}

/// A child runs in the configured directory, without one where the manager does, and in
/// the current one where even that is unknown.
pub proof fn a_child_runs_in_the_configured_directory(s: Settings, current: Option<String>)
    ensures
        s.work_dir is Some ==> s.spec_child_cwd(current) == s.work_dir->0@,
        s.work_dir is None && current is Some ==> s.spec_child_cwd(current) == current->0@,
        s.work_dir is None && current is None ==> s.spec_child_cwd(current) == "."@,
{
}

/// The home directory is the first variable that is set to more than white space.
pub proof fn the_first_home_counts(home: Option<String>, userprofile: Option<String>)
    ensures
        home is Some && text::trim_of(home->0@).len() > 0 ==> settings::spec_home_dir(
            home,
            userprofile,
        ) == Some(home->0@),
        (home is None || text::trim_of(home->0@).len() == 0) && userprofile is Some
            && text::trim_of(userprofile->0@).len() > 0 ==> settings::spec_home_dir(
            home,
            userprofile,
        ) == Some(userprofile->0@),
        (home is None || text::trim_of(home->0@).len() == 0) && (userprofile is None
            || text::trim_of(userprofile->0@).len() == 0) ==> settings::spec_home_dir(
            home,
            userprofile,
        ) is None,
{
}

/// The settings lie in a directory of their own.
pub proof fn settings_have_their_own_directory(host: Host, dir: Seq<char>)
    ensures
        settings::config_in(host, dir) == paths::joined(
            host,
            paths::joined(host, dir, "entangled"@),
            "manager.toml"@,
        ),
{
}

/// The parts of a version stand between dots, behind a `v` or without one.
pub proof fn versions_have_parts(s: Seq<char>)
    ensures
        text::trim_of(s).len() > 0 && text::trim_of(s)[0] == 'v' ==> update::version_parts(s)
            == text::split_of(update::core_of(text::trim_of(s).skip(1)), '.'),
        !(text::trim_of(s).len() > 0 && text::trim_of(s)[0] == 'v') ==> update::version_parts(s)
            == text::split_of(update::core_of(text::trim_of(s)), '.'),
{
}

/// A version is two or three numbers; a missing third is nought.
pub proof fn versions_are_read_in_parts(s: Seq<char>)
    ensures
        update::version_of(s) matches Some(v) ==> {
            let parts = update::version_parts(s);
            &&& parts.len() == 2 || parts.len() == 3
            &&& text::parsed_number(parts[0], u64::MAX as nat) == Some(v.major as nat)
            &&& text::parsed_number(parts[1], u64::MAX as nat) == Some(v.minor as nat)
            &&& parts.len() == 3 ==> text::parsed_number(parts[2], u64::MAX as nat) == Some(
                v.patch as nat,
            )
            &&& parts.len() == 2 ==> v.patch == 0
        },
{
}

/// Two or three numbers are a version.
pub proof fn numbers_are_a_version(s: Seq<char>)
    requires
        update::version_parts(s).len() == 2 || update::version_parts(s).len() == 3,
        text::parsed_number(update::version_parts(s)[0], u64::MAX as nat) is Some,
        text::parsed_number(update::version_parts(s)[1], u64::MAX as nat) is Some,
        update::version_parts(s).len() == 3 ==> text::parsed_number(
            update::version_parts(s)[2],
            u64::MAX as nat,
        ) is Some,
    ensures
        update::version_of(s) is Some,
{
}

/// A tag that is no version is told with its words.
pub proof fn an_unreadable_tag_is_told(release: ApiRelease, current: Version)
    ensures
        update::offer_of(release, current) matches Err(m) ==> text::holds(m, release.tag_name@),
{
    text::lemma_held("unparsable tag '"@, release.tag_name@, "'"@);
}

/// A backend that is chosen for a machine is kept where it is not the usual one, and leaves
/// the other machines alone.
pub proof fn a_chosen_backend_is_kept(
    s: Settings,
    vm: Seq<char>,
    chosen: Backend,
    other: Seq<char>,
)
    ensures
        ({
            let kept = s.backends_with(vm, chosen);
            &&& chosen == s.default_backend ==> !kept.contains_key(vm)
            &&& chosen != s.default_backend ==> kept.contains_key(vm) && kept[vm] == chosen
            &&& other != vm ==> (kept.contains_key(other) <==> s.vm_backends@.contains_key(other))
            &&& other != vm && kept.contains_key(other) ==> kept[other] == s.vm_backends@[other]
        }),
{
}

} // verus!
