//! The startup check for a newer release: what a version is, which release is
//! newer, and which of its assets is the installer.
//!
//! The network is outside. Every failure there is silence; an update check never
//! produces an error dialog.
use crate::host::Host;
use crate::paths;
use crate::text;
use vstd::prelude::*;

verus! {

/// Where releases live.
pub const REPO: &'static str = "doctorspider42/entangled-destop";

/// The largest answer and installer that are read.
pub const MAX_API_BYTES: u64 = 1048576;
pub const MAX_INSTALLER_BYTES: u64 = 536870912;

/// The address of the newest release.
pub fn latest_release_url() -> (r: String)
    ensures
        r@ == "https://api.github.com/repos/"@ + REPO@ + "/releases/latest"@,
{
    text::cat3("https://api.github.com/repos/", REPO, "/releases/latest")
}

/// A `MAJOR.MINOR.PATCH` version. A suffix (`-rc1`, `+g1`) is tolerated when it
/// is read, and ignored.
#[derive(Debug, Clone, Copy, PartialEq, Eq, PartialOrd, Ord, Structural)]
pub struct Version {
    pub major: u64,
    pub minor: u64,
    pub patch: u64,
}

/// `s` up to the first dash or plus sign.
pub open spec fn core_of(s: Seq<char>) -> Seq<char>
    decreases s.len(),
{
    if s.len() == 0 || s[0] == '-' || s[0] == '+' {
        Seq::empty()
    } else {
        seq![s[0]] + core_of(s.drop_first())
    }
}

proof fn lemma_core_at(s: Seq<char>, k: int)
    requires
        0 <= k <= s.len(),
        forall|j: int| 0 <= j < k ==> s[j] != '-' && s[j] != '+',
        k < s.len() ==> s[k] == '-' || s[k] == '+',
    ensures
        core_of(s) == s.take(k),
    decreases k,
{
    if k == 0 {
        assert(s.take(0) =~= Seq::empty());
    } else {
        lemma_core_at(s.drop_first(), k - 1);
        assert(s.take(k) =~= seq![s[0]] + s.drop_first().take(k - 1));
    }
}

/// The numbers between the dots of a version's text.
pub open spec fn version_parts(s: Seq<char>) -> Seq<Seq<char>> {
    let t = text::trim_of(s);
    let body = if t.len() > 0 && t[0] == 'v' {
        t.skip(1)
    } else {
        t
    };
    text::split_of(core_of(body), '.')
}

/// The version that a text denotes: two or three numbers with dots between
/// them, after an optional `v` and before an optional suffix.
pub open spec fn version_of(s: Seq<char>) -> Option<Version> {
    let parts = version_parts(s);
    let max = u64::MAX as nat;
    if parts.len() != 2 && parts.len() != 3 {
        None
    } else {
        match (
            text::parsed_number(parts[0], max),
            text::parsed_number(parts[1], max),
            if parts.len() == 3 {
                text::parsed_number(parts[2], max)
            } else {
                Some(0nat)
            },
        ) {
            (Some(major), Some(minor), Some(patch)) => Some(
                Version { major: major as u64, minor: minor as u64, patch: patch as u64 },
            ),
            _ => None,
        }
    }
}

impl Version {
    /// Reads `1.2.3`, `v1.2.3`, `1.2` (patch 0) and `1.2.3-rc1`; anything with
    /// more dots, or with an empty or non-numeric part, is refused.
    pub fn parse(text: &str) -> (r: Option<Version>)
        ensures
            r == version_of(text@),
    {
        let t = text::trim(text);
        let v = text::chars_of(&t);
        let from: usize = if v.len() > 0 && v[0] == 'v' {
            1
        } else {
            0
        };
        let ghost body = t@.skip(from as int);
        let mut to: usize = from;
        while to < v.len() && v[to] != '-' && v[to] != '+'
            invariant
                v@ == t@,
                body == t@.skip(from as int),
                from <= to <= v@.len(),
                forall|j: int| 0 <= j < to - from ==> body[j] != '-' && body[j] != '+',
            decreases v@.len() - to,
        {
            proof {
                assert(body[to - from] == v@[to as int]);
            }
            to = to + 1;
        }
        let core = text::string_of(&v, from, to);
        proof {
            if from == 0 {
                assert(body =~= t@);
            }
            lemma_core_at(body, to - from);
            assert(core@ =~= body.take(to - from));
        }
        let parts = text::split(&core, '.');
        let ghost all = text::texts(parts@);
        assert(all == version_parts(text@));
        if parts.len() != 2 && parts.len() != 3 {
            return None;
        }
        proof {
            assert(all[0] == parts@[0]@);
            assert(all[1] == parts@[1]@);
        }
        let major = match text::parse_number(&parts[0], u64::MAX) {
            Some(n) => n,
            None => return None,
        };
        let minor = match text::parse_number(&parts[1], u64::MAX) {
            Some(n) => n,
            None => return None,
        };
        let patch: u64 = if parts.len() == 3 {
            assert(all[2] == parts@[2]@);
            match text::parse_number(&parts[2], u64::MAX) {
                Some(n) => n,
                None => return None,
            }
        } else {
            0
        };
        Some(Version { major, minor, patch })
    }

    pub open spec fn spec_text(self) -> Seq<char> {
        text::decimal_of(self.major as nat) + "."@ + text::decimal_of(self.minor as nat) + "."@
            + text::decimal_of(self.patch as nat)
    }

    /// The version as `MAJOR.MINOR.PATCH`.
    pub fn text(&self) -> (r: String)
        ensures
            r@ == self.spec_text(),
    {
        text::cat5(
            &text::decimal(self.major),
            ".",
            &text::decimal(self.minor),
            ".",
            &text::decimal(self.patch),
        )
    }

    /// `self` is a later version than `other`: number by number.
    pub open spec fn later(self, other: Version) -> bool {
        self.major > other.major || (self.major == other.major && (self.minor > other.minor || (
        self.minor == other.minor && self.patch > other.patch)))
    }

    /// Whether `self` is a later version than `other`.
    pub fn is_later(&self, other: &Version) -> (r: bool)
        ensures
            r == self.later(*other),
    {
        self.major > other.major || (self.major == other.major && (self.minor > other.minor || (
        self.minor == other.minor && self.patch > other.patch)))
    }
}

/// Of two different versions exactly one is later, and later is transitive.
pub proof fn versions_are_ordered(a: Version, b: Version, c: Version)
    ensures
        !a.later(a),
        a != b ==> (a.later(b) <==> !b.later(a)),
        a.later(b) && b.later(c) ==> a.later(c),
{
}

/// A version reads back from its own text, with or without the `v`.
pub proof fn versions_read_back(v: Version)
    ensures
        version_of(v.spec_text()) == Some(v),
        version_of(seq!['v'] + v.spec_text()) == Some(v),
{
    let a = text::decimal_of(v.major as nat);
    let b = text::decimal_of(v.minor as nat);
    let c = text::decimal_of(v.patch as nat);
    let max = u64::MAX as nat;
    text::decimal_reads_back(v.major as nat, max);
    text::decimal_reads_back(v.minor as nat, max);
    text::decimal_reads_back(v.patch as nat, max);
    reveal_strlit(".");
    let s = v.spec_text();
    lemma_plain_digits(a);
    lemma_plain_digits(b);
    lemma_plain_digits(c);
    // no dash or plus sign, so the whole text is the core
    assert forall|j: int| 0 <= j < s.len() implies s[j] != '-' && s[j] != '+' && !text::is_white(
        s[j],
    ) by {
        if j < a.len() {
            assert(s[j] == a[j]);
        } else if j == a.len() {
            assert(s[j] == '.');
        } else if j < a.len() + 1 + b.len() {
            assert(s[j] == b[j - a.len() - 1]);
        } else if j == a.len() + 1 + b.len() {
            assert(s[j] == '.');
        } else {
            assert(s[j] == c[j - a.len() - b.len() - 2]);
        }
    }
    lemma_core_at(s, s.len() as int);
    assert(s.take(s.len() as int) =~= s);
    assert(text::is_digit(a[0]));
    assert(s[0] == a[0]);
    text::trim_is_idempotent(s);
    let tagged = seq!['v'] + s;
    assert(tagged.last() == s.last());
    text::trim_is_idempotent(tagged);
    assert(tagged.skip(1) =~= s);
    // the dots split the text into the three numbers
    let ab = a + "."@ + b;
    let adot = a + "."@;
    text::lemma_unsplit(a, '.');
    text::lemma_unsplit(b, '.');
    text::lemma_unsplit(c, '.');
    assert(adot =~= a.push('.'));
    assert(adot.drop_last() =~= a);
    assert(text::split_of(adot, '.') =~= seq![a, Seq::<char>::empty()]);
    text::lemma_split_append(adot, b, '.');
    assert(adot + b =~= ab);
    assert(Seq::<char>::empty() + b =~= b);
    assert(text::split_of(ab, '.') =~= seq![a, b]);
    let abdot = ab + "."@;
    assert(abdot =~= ab.push('.'));
    assert(abdot.drop_last() =~= ab);
    assert(text::split_of(abdot, '.') =~= seq![a, b, Seq::<char>::empty()]);
    text::lemma_split_append(abdot, c, '.');
    assert(abdot + c =~= s);
    assert(Seq::<char>::empty() + c =~= c);
    assert(text::split_of(s, '.') =~= seq![a, b, c]);
}

/// Digits hold no separator, sign or white space.
proof fn lemma_plain_digits(s: Seq<char>)
    requires
        text::all_digits(s),
    ensures
        forall|i: int|
            0 <= i < s.len() ==> s[i] != '.' && s[i] != '-' && s[i] != '+' && !text::is_white(s[i]),
        !text::holds_char(s, '.'),
{
    assert forall|i: int| 0 <= i < s.len() implies s[i] != '.' && s[i] != '-' && s[i] != '+'
        && !text::is_white(s[i]) by {
        assert(text::is_digit(s[i]));
    }
}

/// A newer release that is offered to the user.
#[derive(Debug, PartialEq, Eq)]
pub struct UpdateInfo {
    pub version: Version,
    /// Direct download of the installer, when the release carries one.
    pub installer_url: Option<String>,
    pub installer_name: Option<String>,
    /// The release page, for hosts that cannot run the installer.
    pub page_url: String,
}

impl Clone for UpdateInfo {
    fn clone(&self) -> (r: UpdateInfo)
        ensures
            r == *self,
    {
        UpdateInfo {
            version: self.version,
            installer_url: text::clone_opt(&self.installer_url),
            installer_name: text::clone_opt(&self.installer_name),
            page_url: self.page_url.clone(),
        }
    }
}

/// The part of a release that the check needs.
#[derive(Debug, PartialEq, Eq)]
pub struct ApiRelease {
    pub tag_name: String,
    pub html_url: String,
    pub draft: bool,
    pub prerelease: bool,
    pub assets: Vec<ApiAsset>,
}

#[derive(Debug, PartialEq, Eq)]
pub struct ApiAsset {
    pub name: String,
    pub browser_download_url: String,
}

/// An asset with this name is the installer: an executable with "setup" in its
/// name, whatever its case.
pub open spec fn names_installer(name: Seq<char>) -> bool {
    text::ends_with(text::lower_of(name), ".exe"@) && text::holds(text::lower_of(name), "setup"@)
}

/// Whether an asset with this name is the installer.
pub fn is_installer_asset(name: &str) -> (r: bool)
    ensures
        r == names_installer(name@),
{
    let lower = text::lower(name);
    text::ends(&lower, ".exe") && text::has(&lower, "setup")
}

/// The first installer among the assets.
pub open spec fn installer_of(assets: Seq<ApiAsset>) -> Option<ApiAsset>
    decreases assets.len(),
{
    if assets.len() == 0 {
        None
    } else if names_installer(assets[0].name@) {
        Some(assets[0])
    } else {
        installer_of(assets.drop_first())
    }
}

/// What an answer offers a manager of version `current`.
pub open spec fn offer_of(release: ApiRelease, current: Version) -> Result<
    Option<UpdateInfo>,
    Seq<char>,
> {
    if release.draft || release.prerelease {
        Ok(None)
    } else {
        match version_of(release.tag_name@) {
            None => Err("unparsable tag '"@ + release.tag_name@ + "'"@),
            Some(version) => if !version.later(current) {
                Ok(None)
            } else {
                Ok(
                    Some(
                        UpdateInfo {
                            version,
                            installer_url: match installer_of(release.assets@) {
                                Some(a) => Some(a.browser_download_url),
                                None => None,
                            },
                            installer_name: match installer_of(release.assets@) {
                                Some(a) => Some(a.name),
                                None => None,
                            },
                            page_url: release.html_url,
                        },
                    ),
                )
            },
        }
    }
}

/// Decides whether an answer advertises something newer than `current`. Drafts
/// and pre-releases never are, and an answer that could not be read is an error.
pub fn parse_latest(answer: Result<ApiRelease, String>, current: Version) -> (r: Result<
    Option<UpdateInfo>,
    String,
>)
    ensures
        match answer {
            Err(e) => r == Err::<Option<UpdateInfo>, String>(e),
            Ok(release) => match offer_of(release, current) {
                Ok(offer) => r == Ok::<Option<UpdateInfo>, String>(offer),
                Err(m) => r matches Err(e) && e@ == m,
            },
        },
{
    let release = match answer {
        Ok(release) => release,
        Err(e) => return Err(e),
    };
    if release.draft || release.prerelease {
        return Ok(None);
    }
    let version = match Version::parse(&release.tag_name) {
        Some(version) => version,
        None => return Err(text::cat3("unparsable tag '", &release.tag_name, "'")),
    };
    if !version.is_later(&current) {
        return Ok(None);
    }
    let mut installer_url: Option<String> = None;
    let mut installer_name: Option<String> = None;
    let mut i: usize = 0;
    let ghost all = release.assets@;
    assert(all.skip(0) =~= all);
    while i < release.assets.len()
        invariant_except_break
            all == release.assets@,
            i <= all.len(),
            installer_of(all) == installer_of(all.skip(i as int)),
            installer_url is None,
            installer_name is None,
        ensures
            match installer_of(all) {
                Some(a) => installer_url == Some(a.browser_download_url) && installer_name == Some(
                    a.name,
                ),
                None => installer_url is None && installer_name is None,
            },
        decreases release.assets@.len() - i,
    {
        proof {
            assert(all.skip(i as int).drop_first() =~= all.skip(i + 1));
            assert(all.skip(i as int)[0] == all[i as int]);
        }
        if is_installer_asset(&release.assets[i].name) {
            installer_url = Some(release.assets[i].browser_download_url.clone());
            installer_name = Some(release.assets[i].name.clone());
            break;
        }
        i = i + 1;
    }
    Ok(
        Some(
            UpdateInfo { version, installer_url, installer_name, page_url: release.html_url },
        ),
    )
}

/// Whether an answer of this many bytes is read at all, or why not.
pub fn check_size(read: u64, limit: u64) -> (r: Result<(), String>)
    ensures
        match r {
            Ok(()) => read <= limit,
            Err(e) => read > limit && e@ == "response exceeds "@ + text::decimal_of(limit as nat)
                + " bytes"@,
        },
{
    if read > limit {
        return Err(text::cat3("response exceeds ", &text::decimal(limit), " bytes"));
    }
    Ok(())
}

/// What an update downloads, or why it cannot.
pub fn installer_of_update(info: &UpdateInfo) -> (r: Result<(String, String), String>)
    ensures
        match (info.installer_url, info.installer_name) {
            (Some(url), Some(name)) => r == Ok::<(String, String), String>((url, name)),
            _ => r matches Err(e) && e@ == "this release carries no Windows installer asset"@,
        },
{
    match (&info.installer_url, &info.installer_name) {
        (Some(url), Some(name)) => Ok((url.clone(), name.clone())),
        _ => Err("this release carries no Windows installer asset".to_owned()),
    }
}

/// Why a downloaded installer cannot be started on this host, if it cannot: it
/// is a Windows program.
pub fn launch_block(host: Host, path: &str) -> (r: Option<String>)
    ensures
        text::opt_text(r) == (if host == Host::Windows {
            None
        } else {
            Some(
                path@ + " is a Windows installer; download it from the release page instead"@,
            )
        }),
{
    if host.is_windows() {
        None
    } else {
        Some(
            text::cat(
                path,
                " is a Windows installer; download it from the release page instead",
            ),
        )
    }
}

/// Where a downloaded installer lands: the downloads directory when it exists,
/// the temporary directory otherwise.
pub fn download_dir(
    host: Host,
    home: &Option<String>,
    downloads_exist: bool,
    temp_dir: &str,
) -> (r: String)
    ensures
        r@ == match *home {
            Some(dir) => if downloads_exist {
                paths::joined(host, dir@, "Downloads"@)
            } else {
                temp_dir@
            },
            None => temp_dir@,
        },
{
    if let Some(dir) = home {
        if downloads_exist {
            return paths::join(host, dir, "Downloads");
        }
    }
    temp_dir.to_owned()
}

} // verus!
