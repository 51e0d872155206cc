//! Publishing plugins as Codeberg releases and installing them back: the
//! names, URLs and texts that the exchange uses, the choice of the plugins to
//! publish, and the choice of the release to download.

use vstd::prelude::*;
use crate::text::{
    decimal_i64, decimal_string, decimal_seq, find_char, index_of_char, last_index_of,
    lemma_last_index_of, parse_usize, parse_usize_seq, replace_seq, replace_str, rfind_char,
    signed_decimal_seq, str_equal, trim, trim_seq,
};

verus! {

/// The web address of the forge: the API address without `/api/v1`.
pub open spec fn base_url_of(api: Seq<char>) -> Seq<char> {
    replace_seq(api, "/api/v1"@, ""@)
}

/// The web address of the forge, from its API address: every `/api/v1` is
/// removed.
pub fn get_codeberg_base_url(api: &str) -> (r: String)
    ensures
        r@ == base_url_of(api@),
{
    proof {
        reveal_strlit("/api/v1");
    }
    replace_str(api, "/api/v1", "")
}

/// The date part of an ISO 8601 timestamp: the text before the first `T`,
/// or the whole text when it has none.
pub open spec fn date_of(iso: Seq<char>) -> Seq<char> {
    match index_of_char(iso, 'T') {
        Some(i) => iso.subrange(0, i),
        None => iso,
    }
}

/// The date part of an ISO 8601 timestamp such as `2024-05-01T10:00:00Z`.
pub fn format_timestamp(iso_time: &str) -> (r: String)
    ensures
        r@ == date_of(iso_time@),
{
    match find_char(iso_time, 'T') {
        Some(t) => String::from_str(iso_time.substring_char(0, t)),
        None => String::from_str(iso_time),
    }
}

/// A release tag `<plugin>-<version>` split at its last dash; none when the
/// tag has no dash.
pub open spec fn split_tag_seq(tag: Seq<char>) -> Option<(Seq<char>, Seq<char>)> {
    match last_index_of(tag, '-') {
        Some(i) => Some((tag.subrange(0, i), tag.subrange(i + 1, tag.len() as int))),
        None => None,
    }
}

/// Splits a release tag `<plugin>-<version>` at its last dash.
pub fn split_release_tag(tag: &str) -> (r: Option<(String, String)>)
    ensures
        r matches Some(p) ==> split_tag_seq(tag@) == Some((p.0@, p.1@)),
        r is None ==> split_tag_seq(tag@) is None,
{
    let n = tag.unicode_len();
    match rfind_char(tag, '-') {
        Some(i) => Some((String::from_str(tag.substring_char(0, i)), String::from_str(tag.substring_char(i + 1, n)))),
        None => None,
    }
}

/// The tag of the release of a plugin version.
pub open spec fn release_tag_seq(name: Seq<char>, version: Seq<char>) -> Seq<char> {
    name + "-"@ + version
}

/// The tag `<plugin>-<version>` of a release.
pub fn release_tag(name: &str, version: &str) -> (r: String)
    ensures
        r@ == release_tag_seq(name@, version@),
{
    let mut r = String::from_str(name);
    r.append("-");
    r.append(version);
    r
}

/// The archive `<plugin>-<version>.zip` of a release.
pub fn asset_file_name(name: &str, version: &str) -> (r: String)
    ensures
        r@ == release_tag_seq(name@, version@) + ".zip"@,
{
    let mut r = release_tag(name, version);
    r.append(".zip");
    r
}

/// An asset of a release.
pub struct AssetRecord {
    pub id: i64,
    pub name: String,
    pub url: String,
}

/// A release as the forge lists it.
pub struct ReleaseRecord {
    pub tag_name: String,
    pub published_at: String,
    pub assets: Option<Vec<AssetRecord>>,
}

/// What the listing of published plugins gives for one release: plugin,
/// version and publication date, when the tag splits.
pub open spec fn published_entry(r: ReleaseRecord) -> Option<(Seq<char>, Seq<char>, Seq<char>)> {
    match split_tag_seq(r.tag_name@) {
        Some(p) => Some((p.0, p.1, date_of(r.published_at@))),
        None => None,
    }
}

/// The published plugins of a list of releases, in order.
pub open spec fn published_entries_seq(rs: Seq<ReleaseRecord>) -> Seq<(Seq<char>, Seq<char>, Seq<char>)>
    decreases rs.len(),
{
    if rs.len() == 0 {
        seq![]
    } else {
        match published_entry(rs.last()) {
            Some(e) => published_entries_seq(rs.drop_last()).push(e),
            None => published_entries_seq(rs.drop_last()),
        }
    }
}

/// The models of a list of published plugins.
pub open spec fn entry_models(v: Seq<(String, String, String)>) -> Seq<(Seq<char>, Seq<char>, Seq<char>)> {
    v.map_values(|e: (String, String, String)| (e.0@, e.1@, e.2@))
}

/// The plugins published as releases: for each release whose tag has a
/// dash, its plugin, its version and the date it was published.
pub fn published_tsnps(releases: &Vec<ReleaseRecord>) -> (r: Vec<(String, String, String)>)
    ensures
        entry_models(r@) == published_entries_seq(releases@),
{
    let mut out: Vec<(String, String, String)> = Vec::new();
    let mut i: usize = 0;
    assert(releases@.subrange(0, 0) =~= Seq::<ReleaseRecord>::empty());
    assert(entry_models(out@) =~= Seq::<(Seq<char>, Seq<char>, Seq<char>)>::empty());
    while i < releases.len()
        invariant
            i <= releases.len(),
            entry_models(out@) == published_entries_seq(releases@.subrange(0, i as int)),
        decreases releases.len() - i,
    {
        let ghost prefix = releases@.subrange(0, i as int + 1);
        assert(prefix.drop_last() =~= releases@.subrange(0, i as int));
        assert(prefix.last() == releases@[i as int]);
        let r = &releases[i];
        match split_release_tag(r.tag_name.as_str()) {
            Some((plugin, version)) => {
                let date = format_timestamp(r.published_at.as_str());
                let ghost before = entry_models(out@);
                let ghost e = (plugin@, version@, date@);
                out.push((plugin, version, date));
                assert(entry_models(out@) =~= before.push(e));
            },
            None => {},
        }
        i = i + 1;
    }
    assert(releases@.subrange(0, releases.len() as int) =~= releases@);
    out
}

/// `a` sorts before `b`: the order of `str`, which compares UTF-8 bytes and
/// so orders by code point, character by character, a proper prefix first.
pub open spec fn lex_less(a: Seq<char>, b: Seq<char>) -> bool
    decreases a.len(),
{
    if a.len() == 0 {
        b.len() > 0
    } else if b.len() == 0 {
        false
    } else if a[0] != b[0] {
        (a[0] as int) < (b[0] as int)
    } else {
        lex_less(a.drop_first(), b.drop_first())
    }
}

/// Whether `a` sorts before `b`.
pub fn str_less(a: &str, b: &str) -> (r: bool)
    ensures
        r == lex_less(a@, b@),
{
    let n = a.unicode_len();
    let m = b.unicode_len();
    let mut i: usize = 0;
    assert(a@.skip(0) =~= a@);
    assert(b@.skip(0) =~= b@);
    while i < n && i < m
        invariant
            n == a@.len(),
            m == b@.len(),
            i <= n,
            i <= m,
            lex_less(a@, b@) == lex_less(a@.skip(i as int), b@.skip(i as int)),
        decreases n - i,
    {
        let x = a.get_char(i);
        let y = b.get_char(i);
        assert(a@.skip(i as int)[0] == x);
        assert(b@.skip(i as int)[0] == y);
        if x != y {
            return (x as u32) < (y as u32);
        }
        assert(a@.skip(i as int).drop_first() =~= a@.skip(i as int + 1));
        assert(b@.skip(i as int).drop_first() =~= b@.skip(i as int + 1));
        i = i + 1;
    }
    i == n && i < m
}

/// The release belongs to the plugin `name`, and to `version` when one is
/// asked for.
pub open spec fn release_matches(r: ReleaseRecord, name: Seq<char>, version: Option<Seq<char>>) -> bool {
    match split_tag_seq(r.tag_name@) {
        Some(p) => p.0 == name && match version {
            Some(v) => p.1 == v,
            None => true,
        },
        None => false,
    }
}

/// The index of the newest matching release, the first of them when several
/// share the latest date: what a stable sort by date, newest first, puts
/// first.
pub open spec fn newest_match(rs: Seq<ReleaseRecord>, name: Seq<char>, version: Option<Seq<char>>) -> Option<int>
    decreases rs.len(),
{
    if rs.len() == 0 {
        None
    } else {
        let prev = newest_match(rs.drop_last(), name, version);
        let k = rs.len() - 1;
        if release_matches(rs[k], name, version) && match prev {
            Some(j) => lex_less(rs[j].published_at@, rs[k].published_at@),
            None => true,
        } {
            Some(k)
        } else {
            prev
        }
    }
}

/// Why no release could be downloaded.
pub enum DownloadError {
    /// No release of the plugin (at the asked version) exists.
    NoRelease,
    /// The chosen release lists no assets.
    NoAssets,
    /// The chosen release has no archive of the expected name.
    AssetNotFound(String),
}

/// The release chosen for a download.
pub struct ReleaseChoice {
    /// The version taken from the release tag.
    pub version: String,
    /// The address of its archive.
    pub asset_url: String,
}

/// The version in the tag of a release.
pub open spec fn tag_version(r: ReleaseRecord) -> Seq<char> {
    match split_tag_seq(r.tag_name@) {
        Some(p) => p.1,
        None => "unknown"@,
    }
}

/// The first asset with the given name.
pub open spec fn asset_index(assets: Seq<AssetRecord>, name: Seq<char>) -> Option<int>
    decreases assets.len(),
{
    if assets.len() == 0 {
        None
    } else {
        match asset_index(assets.drop_last(), name) {
            Some(i) => Some(i),
            None => if assets.last().name@ == name {
                Some(assets.len() - 1)
            } else {
                None
            },
        }
    }
}

/// Chooses the release to install: the newest release of the plugin (at
/// the asked version, if any), and in it the archive
/// `<plugin>-<version>.zip`.
pub fn select_release(releases: &Vec<ReleaseRecord>, name: &str, version: Option<&str>) -> (r: Result<ReleaseChoice, DownloadError>)
    ensures
        ({
            let vm = match version {
                Some(v) => Some(v@),
                None => None,
            };
            match newest_match(releases@, name@, vm) {
                None => r matches Err(DownloadError::NoRelease),
                Some(k) => {
                    let rel = releases@[k];
                    let asset = name@ + "-"@ + tag_version(rel) + ".zip"@;
                    match rel.assets {
                        None => r matches Err(DownloadError::NoAssets),
                        Some(assets) => match asset_index(assets@, asset) {
                            None => r matches Err(DownloadError::AssetNotFound(a)) && a@ == asset,
                            Some(j) => r matches Ok(c) && c.version@ == tag_version(rel) && c.asset_url@
                                == assets@[j].url@,
                        },
                    }
                },
            }
        }),
{
    let ghost vm = match version {
        Some(v) => Some(v@),
        None => None,
    };
    let mut best: Option<usize> = None;
    let mut i: usize = 0;
    assert(releases@.subrange(0, 0) =~= Seq::<ReleaseRecord>::empty());
    while i < releases.len()
        invariant
            i <= releases.len(),
            vm == match version {
                Some(v) => Some(v@),
                None => None::<Seq<char>>,
            },
            match best {
                Some(b) => newest_match(releases@.subrange(0, i as int), name@, vm) == Some(b as int) && b < i,
                None => newest_match(releases@.subrange(0, i as int), name@, vm) is None,
            },
        decreases releases.len() - i,
    {
        let ghost prefix = releases@.subrange(0, i as int + 1);
        assert(prefix.drop_last() =~= releases@.subrange(0, i as int));
        assert(prefix[i as int] == releases@[i as int]);
        let r = &releases[i];
        let matches = match split_release_tag(r.tag_name.as_str()) {
            Some((p, v)) => str_equal(p.as_str(), name) && match version {
                Some(want) => str_equal(v.as_str(), want),
                None => true,
            },
            None => false,
        };
        if matches {
            let newer = match best {
                Some(b) => {
                    assert(prefix[b as int] == releases@[b as int]);
                    str_less(releases[b].published_at.as_str(), r.published_at.as_str())
                },
                None => true,
            };
            if newer {
                best = Some(i);
            }
        } else {
        }
        i = i + 1;
    }
    assert(releases@.subrange(0, releases.len() as int) =~= releases@);
    let k = match best {
        Some(k) => k,
        None => {
            return Err(DownloadError::NoRelease);
        },
    };
    let rel = &releases[k];
    let n = rel.tag_name.unicode_len();
    let version_text: String = match rfind_char(rel.tag_name.as_str(), '-') {
        Some(pos) => String::from_str(rel.tag_name.substring_char(pos + 1, n)),
        None => String::from_str("unknown"),
    };
    let mut asset = String::from_str(name);
    asset.append("-");
    asset.append(version_text.as_str());
    asset.append(".zip");
    match &rel.assets {
        None => Err(DownloadError::NoAssets),
        Some(assets) => {
            let mut j: usize = 0;
            assert(assets@.subrange(0, 0) =~= Seq::<AssetRecord>::empty());
            assert(newest_match(releases@, name@, vm) == Some(k as int));
            assert(version_text@ == tag_version(releases@[k as int]));
            while j < assets.len()
                invariant
                    j <= assets.len(),
                    k < releases.len(),
                    vm == match version {
                        Some(v) => Some(v@),
                        None => None::<Seq<char>>,
                    },
                    newest_match(releases@, name@, vm) == Some(k as int),
                    version_text@ == tag_version(releases@[k as int]),
                    releases@[k as int].assets == Some(*assets),
                    asset@ == name@ + "-"@ + tag_version(releases@[k as int]) + ".zip"@,
                    asset_index(assets@.subrange(0, j as int), asset@) is None,
                decreases assets.len() - j,
            {
                let ghost prefix = assets@.subrange(0, j as int + 1);
                assert(prefix.drop_last() =~= assets@.subrange(0, j as int));
                assert(prefix.last() == assets@[j as int]);
                if str_equal(assets[j].name.as_str(), asset.as_str()) {
                    assert(asset_index(prefix, asset@) == Some(j as int));
                    proof {
                        lemma_asset_index_prefix(assets@, j as int + 1, asset@);
                    }
                    return Ok(ReleaseChoice { version: version_text, asset_url: assets[j].url.clone() });
                }
                j = j + 1;
            }
            assert(assets@.subrange(0, assets.len() as int) =~= assets@);
            Err(DownloadError::AssetNotFound(asset))
        },
    }
}

proof fn lemma_asset_index_prefix(assets: Seq<AssetRecord>, k: int, name: Seq<char>)
    requires
        0 <= k <= assets.len(),
        asset_index(assets.subrange(0, k), name) is Some,
    ensures
        asset_index(assets, name) == asset_index(assets.subrange(0, k), name),
    decreases assets.len() - k,
{
    if k < assets.len() {
        let p = assets.subrange(0, k + 1);
        assert(p.drop_last() =~= assets.subrange(0, k));
        lemma_asset_index_prefix(assets, k + 1, name);
    } else {
        assert(assets.subrange(0, k) =~= assets);
    }
}


/// The choice made at the publish menu.
#[derive(Debug, PartialEq, Eq, Structural)]
pub enum PublishSelection {
    /// `q`: nothing is published.
    Cancel,
    /// `a`: every plugin is published.
    All,
    /// A plugin number: the plugin at this 0-based index is published.
    One(usize),
    /// Anything else.
    Invalid,
}

/// The choice that the input line `input` makes among `count` plugins: `q`
/// cancels, `a` takes all, a number from 1 to `count` takes that plugin;
/// the line is trimmed first.
pub open spec fn selection_of(input: Seq<char>, count: nat) -> PublishSelection {
    let t = trim_seq(input);
    if t == "q"@ {
        PublishSelection::Cancel
    } else if t == "a"@ {
        PublishSelection::All
    } else {
        match parse_usize_seq(t) {
            Some(n) => if 1 <= n <= count {
                PublishSelection::One((n - 1) as usize)
            } else {
                PublishSelection::Invalid
            },
            None => PublishSelection::Invalid,
        }
    }
}

/// Reads the answer to the publish menu that lists `count` plugins.
pub fn parse_publish_selection(input: &str, count: usize) -> (r: PublishSelection)
    ensures
        r == selection_of(input@, count as nat),
{
    proof {
        reveal_strlit("q");
        reveal_strlit("a");
    }
    let t = trim(input);
    if str_equal(t, "q") {
        PublishSelection::Cancel
    } else if str_equal(t, "a") {
        PublishSelection::All
    } else {
        match parse_usize(t) {
            Some(n) => if 1 <= n && n <= count {
                PublishSelection::One(n - 1)
            } else {
                PublishSelection::Invalid
            },
            None => PublishSelection::Invalid,
        }
    }
}

/// The line of the publish menu for the plugin at 0-based index `i`.
pub open spec fn menu_line_seq(i: nat, name: Seq<char>) -> Seq<char> {
    "["@ + decimal_seq(i + 1) + "] "@ + name
}

/// The publish menu: one numbered line per plugin, from 1.
pub fn publish_menu_lines(plugins: &Vec<String>) -> (r: Vec<String>)
    requires
        plugins.len() < usize::MAX,
    ensures
        r@.len() == plugins@.len(),
        forall|i: int| 0 <= i < r@.len() ==> #[trigger] r@[i]@ == menu_line_seq(i as nat, plugins@[i]@),
{
    let mut out: Vec<String> = Vec::new();
    let mut i: usize = 0;
    while i < plugins.len()
        invariant
            i <= plugins.len() < usize::MAX,
            out@.len() == i,
            forall|k: int| 0 <= k < i ==> #[trigger] out@[k]@ == menu_line_seq(k as nat, plugins@[k]@),
        decreases plugins.len() - i,
    {
        let mut line = String::from_str("[");
        let number = decimal_string(i + 1);
        line.append(number.as_str());
        line.append("] ");
        line.append(plugins[i].as_str());
        out.push(line);
        i = i + 1;
    }
    out
}

/// The version of a plugin as its `ts-native.toml` gives it, `0.1.0` when
/// the package names none.
pub fn package_version(version: Option<String>) -> (r: String)
    ensures
        r@ == match version {
            Some(v) => v@,
            None => "0.1.0"@,
        },
{
    match version {
        Some(v) => v,
        None => String::from_str("0.1.0"),
    }
}

/// Whether an entry of a plugin directory stays out of its archive: build
/// output and version control files.
pub open spec fn excluded_entry(name: Seq<char>) -> bool {
    name == "target"@ || name == ".git"@ || name == ".gitignore"@
}

/// Whether the entry named `name` stays out of a plugin archive.
pub fn is_excluded_entry(name: &str) -> (r: bool)
    ensures
        r == excluded_entry(name@),
{
    str_equal(name, "target") || str_equal(name, ".git") || str_equal(name, ".gitignore")
}

/// The path of a file inside a plugin archive: its path below `tsnp/`, with
/// forward slashes.
pub open spec fn archive_path_seq(relative: Seq<char>) -> Seq<char> {
    replace_seq(relative, "\\"@, "/"@)
}

/// The path inside the archive of the file at `relative` below `tsnp/`.
pub fn archive_path(relative: &str) -> (r: String)
    ensures
        r@ == archive_path_seq(relative@),
{
    proof {
        reveal_strlit("\\");
    }
    replace_str(relative, "\\", "/")
}

/// `<base>/<user>/<repo>`: the web page of the plugin repository.
pub open spec fn repo_page_seq(base: Seq<char>, user: Seq<char>, repo: Seq<char>) -> Seq<char> {
    base + "/"@ + user + "/"@ + repo
}

/// The web page of the plugin repository.
pub fn repo_page(base: &str, user: &str, repo: &str) -> (r: String)
    ensures
        r@ == repo_page_seq(base@, user@, repo@),
{
    let mut r = String::from_str(base);
    r.append("/");
    r.append(user);
    r.append("/");
    r.append(repo);
    r
}

/// The web page of the release with the given tag.
pub open spec fn release_page_seq(base: Seq<char>, user: Seq<char>, repo: Seq<char>, tag: Seq<char>) -> Seq<char> {
    repo_page_seq(base, user, repo) + "/releases/tag/"@ + tag
}

/// The web page of the release with the given tag.
pub fn release_page(base: &str, user: &str, repo: &str, tag: &str) -> (r: String)
    ensures
        r@ == release_page_seq(base@, user@, repo@, tag@),
{
    let mut r = repo_page(base, user, repo);
    r.append("/releases/tag/");
    r.append(tag);
    r
}

/// The address at which a published release is shown: the release's API
/// address turned into its web page when the forge gave one, else the page
/// built from the tag.
pub open spec fn release_display_url_seq(
    release_url: Seq<char>,
    base: Seq<char>,
    user: Seq<char>,
    repo: Seq<char>,
    tag: Seq<char>,
) -> Seq<char> {
    if release_url.len() > 0 {
        replace_seq(replace_seq(release_url, "/api/v1/repos/"@, "/"@), "/releases/"@, "/releases/tag/"@)
    } else {
        release_page_seq(base, user, repo, tag)
    }
}

/// The address shown for a published release.
pub fn release_display_url(release_url: &str, base: &str, user: &str, repo: &str, tag: &str) -> (r: String)
    ensures
        r@ == release_display_url_seq(release_url@, base@, user@, repo@, tag@),
{
    proof {
        reveal_strlit("/api/v1/repos/");
        reveal_strlit("/releases/");
    }
    if release_url.unicode_len() > 0 {
        let a = replace_str(release_url, "/api/v1/repos/", "/");
        replace_str(a.as_str(), "/releases/", "/releases/tag/")
    } else {
        release_page(base, user, repo, tag)
    }
}

/// `<api>/repos/<user>/<repo>/releases`: the API address of the releases.
pub open spec fn releases_api_seq(api: Seq<char>, user: Seq<char>, repo: Seq<char>) -> Seq<char> {
    api + "/repos/"@ + user + "/"@ + repo + "/releases"@
}

/// The API address of the releases of the plugin repository.
pub fn releases_api_url(api: &str, user: &str, repo: &str) -> (r: String)
    ensures
        r@ == releases_api_seq(api@, user@, repo@),
{
    let mut r = String::from_str(api);
    r.append("/repos/");
    r.append(user);
    r.append("/");
    r.append(repo);
    r.append("/releases");
    r
}

/// The API address of the release with the given tag.
pub fn release_by_tag_url(api: &str, user: &str, repo: &str, tag: &str) -> (r: String)
    ensures
        r@ == releases_api_seq(api@, user@, repo@) + "/tags/"@ + tag@,
{
    let mut r = releases_api_url(api, user, repo);
    r.append("/tags/");
    r.append(tag);
    r
}

/// The API address of the assets of a release.
pub open spec fn assets_api_seq(api: Seq<char>, user: Seq<char>, repo: Seq<char>, release_id: int) -> Seq<char> {
    releases_api_seq(api, user, repo) + "/"@ + signed_decimal_seq(release_id) + "/assets"@
}

/// The API address of the assets of the release `release_id`.
pub fn release_assets_url(api: &str, user: &str, repo: &str, release_id: i64) -> (r: String)
    ensures
        r@ == assets_api_seq(api@, user@, repo@, release_id as int),
{
    let mut r = releases_api_url(api, user, repo);
    r.append("/");
    let id = decimal_i64(release_id);
    r.append(id.as_str());
    r.append("/assets");
    r
}

/// The API address of one asset of a release.
pub fn release_asset_url(api: &str, user: &str, repo: &str, release_id: i64, asset_id: i64) -> (r: String)
    ensures
        r@ == assets_api_seq(api@, user@, repo@, release_id as int) + "/"@ + signed_decimal_seq(
            asset_id as int,
        ),
{
    let mut r = release_assets_url(api, user, repo, release_id);
    r.append("/");
    let id = decimal_i64(asset_id);
    r.append(id.as_str());
    r
}

/// The title of the release of a plugin version: `<plugin> v<version>`.
pub fn release_title(name: &str, version: &str) -> (r: String)
    ensures
        r@ == name@ + " v"@ + version@,
{
    let mut r = String::from_str(name);
    r.append(" v");
    r.append(version);
    r
}

/// The description of the release of a plugin version.
pub fn release_body(name: &str, version: &str, author: &str) -> (r: String)
    ensures
        r@ == "Plugin: "@ + name@ + "\nVersion: "@ + version@ + "\nAuthor: "@ + author@,
{
    let mut r = String::from_str("Plugin: ");
    r.append(name);
    r.append("\nVersion: ");
    r.append(version);
    r.append("\nAuthor: ");
    r.append(author);
    r
}

/// The ids of the assets named `asset_name`, in order.
pub open spec fn matching_asset_ids(assets: Seq<AssetRecord>, asset_name: Seq<char>) -> Seq<i64>
    decreases assets.len(),
{
    if assets.len() == 0 {
        seq![]
    } else {
        let rest = matching_asset_ids(assets.drop_last(), asset_name);
        if assets.last().name@ == asset_name {
            rest.push(assets.last().id)
        } else {
            rest
        }
    }
}

/// The assets to delete before a new archive is uploaded: those that carry
/// its name.
pub fn assets_to_replace(assets: &Vec<AssetRecord>, asset_name: &str) -> (r: Vec<i64>)
    ensures
        r@ == matching_asset_ids(assets@, asset_name@),
{
    let mut out: Vec<i64> = Vec::new();
    let mut i: usize = 0;
    assert(assets@.subrange(0, 0) =~= Seq::<AssetRecord>::empty());
    while i < assets.len()
        invariant
            i <= assets.len(),
            out@ == matching_asset_ids(assets@.subrange(0, i as int), asset_name@),
        decreases assets.len() - i,
    {
        let ghost prefix = assets@.subrange(0, i as int + 1);
        assert(prefix.drop_last() =~= assets@.subrange(0, i as int));
        assert(prefix.last() == assets@[i as int]);
        if str_equal(assets[i].name.as_str(), asset_name) {
            out.push(assets[i].id);
        }
        i = i + 1;
    }
    assert(assets@.subrange(0, assets.len() as int) =~= assets@);
    out
}


/// A release tag splits back into the plugin and the version it was made
/// of, when the version has no dash; and a tag that splits is made back from
/// its two parts.
pub proof fn law_release_tag_roundtrip(name: Seq<char>, version: Seq<char>, tag: Seq<char>)
    ensures
        !version.contains('-') ==> split_tag_seq(release_tag_seq(name, version)) == Some((name, version)),
        split_tag_seq(tag) matches Some(p) ==> release_tag_seq(p.0, p.1) == tag && !p.1.contains('-'),
{
    reveal_strlit("-");
    let t = release_tag_seq(name, version);
    lemma_last_index_of(t, '-');
    lemma_last_index_of(tag, '-');
    if !version.contains('-') {
        let n = name.len() as int;
        assert(t[n] == '-');
        match last_index_of(t, '-') {
            Some(i) => {
                if i > n {
                    assert(version[i - n - 1] == t[i]);
                    assert(version.contains(t[i]));
                }
                assert(i == n);
                assert(t.subrange(0, n) =~= name);
                assert(t.subrange(n + 1, t.len() as int) =~= version);
            },
            None => {},
        }
    }
    match last_index_of(tag, '-') {
        Some(i) => {
            let a = tag.subrange(0, i);
            let b = tag.subrange(i + 1, tag.len() as int);
            assert(release_tag_seq(a, b) =~= tag);
            if b.contains('-') {
                let j = choose|j: int| 0 <= j < b.len() && b[j] == '-';
                assert(tag[i + 1 + j] == '-');
            }
        },
        None => {},
    }
}

/// The date of a timestamp is the text before its first `T`: a prefix of
/// the timestamp with no `T` in it.
pub proof fn law_date_is_prefix(iso: Seq<char>)
    ensures
        date_of(iso).len() <= iso.len(),
        date_of(iso) == iso.subrange(0, date_of(iso).len() as int),
        !date_of(iso).contains('T'),
        date_of(iso).len() < iso.len() ==> iso[date_of(iso).len() as int] == 'T',
{
    crate::text::lemma_find_from_facts(iso, seq!['T'], 0);
    match index_of_char(iso, 'T') {
        Some(k) => {
            assert(crate::text::occurs_at(iso, seq!['T'], k));
            assert(iso.subrange(k, k + 1)[0] == iso[k]);
            assert(seq!['T'][0] == 'T');
            assert forall|j: int| 0 <= j < k implies iso[j] != 'T' by {
                assert(iso.subrange(j, j + 1) =~= seq![iso[j]]);
                if iso[j] == 'T' {
                    assert(crate::text::occurs_at(iso, seq!['T'], j));
                }
            }
            assert(iso.subrange(0, k).subrange(0, k) =~= iso.subrange(0, k));
        },
        None => {
            assert forall|j: int| 0 <= j < iso.len() implies iso[j] != 'T' by {
                assert(iso.subrange(j, j + 1) =~= seq![iso[j]]);
                if iso[j] == 'T' {
                    assert(crate::text::occurs_at(iso, seq!['T'], j));
                }
            }
            assert(iso.subrange(0, iso.len() as int) =~= iso);
        },
    }
}

/// A number chosen at the publish menu always names one of the listed
/// plugins.
pub proof fn law_selection_in_range(input: Seq<char>, count: nat)
    ensures
        selection_of(input, count) matches PublishSelection::One(i) ==> i < count,
{
}

proof fn lemma_lex_less_irreflexive(a: Seq<char>)
    ensures
        !lex_less(a, a),
    decreases a.len(),
{
    if a.len() > 0 {
        lemma_lex_less_irreflexive(a.drop_first());
    }
}

proof fn lemma_lex_less_trans(a: Seq<char>, b: Seq<char>, c: Seq<char>)
    requires
        lex_less(a, b),
        lex_less(b, c),
    ensures
        lex_less(a, c),
    decreases a.len(),
{
    if a.len() > 0 && b.len() > 0 && c.len() > 0 {
        if a[0] == b[0] && b[0] == c[0] {
            lemma_lex_less_trans(a.drop_first(), b.drop_first(), c.drop_first());
        }
    }
}

proof fn lemma_lex_less_total(a: Seq<char>, b: Seq<char>)
    ensures
        a == b || lex_less(a, b) || lex_less(b, a),
    decreases a.len(),
{
    if a.len() > 0 && b.len() > 0 && a[0] == b[0] {
        lemma_lex_less_total(a.drop_first(), b.drop_first());
        if a.drop_first() == b.drop_first() {
            assert(a =~= seq![a[0]] + a.drop_first());
            assert(b =~= seq![b[0]] + b.drop_first());
        }
    } else if a.len() == 0 && b.len() == 0 {
        assert(a =~= b);
    }
}

/// The release that a download takes: when some release of the plugin (at
/// the asked version) exists, one of them; none is newer, and every one
/// listed before it is older. When none exists, nothing is taken.
pub proof fn law_newest_release(rs: Seq<ReleaseRecord>, name: Seq<char>, version: Option<Seq<char>>)
    ensures
        newest_match(rs, name, version) is Some <==> exists|j: int|
            0 <= j < rs.len() && release_matches(#[trigger] rs[j], name, version),
        newest_match(rs, name, version) matches Some(k) ==> {
            &&& 0 <= k < rs.len()
            &&& release_matches(rs[k], name, version)
            &&& forall|j: int|
                0 <= j < rs.len() && release_matches(#[trigger] rs[j], name, version) ==> !lex_less(
                    rs[k].published_at@,
                    rs[j].published_at@,
                )
            &&& forall|j: int|
                0 <= j < k && release_matches(#[trigger] rs[j], name, version) ==> lex_less(
                    rs[j].published_at@,
                    rs[k].published_at@,
                )
        },
    decreases rs.len(),
{
    if rs.len() > 0 {
        let init = rs.drop_last();
        law_newest_release(init, name, version);
        let k = rs.len() - 1;
        let prev = newest_match(init, name, version);
        assert forall|j: int| 0 <= j < init.len() implies #[trigger] init[j] == rs[j] by {}
        if exists|j: int| 0 <= j < init.len() && release_matches(#[trigger] init[j], name, version) {
            let j = choose|j: int| 0 <= j < init.len() && release_matches(#[trigger] init[j], name, version);
            assert(release_matches(rs[j], name, version));
        }
        if exists|j: int| 0 <= j < rs.len() && release_matches(#[trigger] rs[j], name, version) {
            let j = choose|j: int| 0 <= j < rs.len() && release_matches(#[trigger] rs[j], name, version);
            if j < k {
                assert(release_matches(init[j], name, version));
            }
        }
        match prev {
            Some(p) => {
                let dp = rs[p].published_at@;
                let dk = rs[k].published_at@;
                if release_matches(rs[k], name, version) && lex_less(dp, dk) {
                    assert forall|j: int|
                        0 <= j < rs.len() && release_matches(#[trigger] rs[j], name, version) implies !lex_less(
                        dk,
                        rs[j].published_at@,
                    ) by {
                        if j < k {
                            assert(release_matches(init[j], name, version));
                            if lex_less(dk, rs[j].published_at@) {
                                lemma_lex_less_trans(dp, dk, rs[j].published_at@);
                            }
                        } else {
                            lemma_lex_less_irreflexive(dk);
                        }
                    }
                    assert forall|j: int|
                        0 <= j < k && release_matches(#[trigger] rs[j], name, version) implies lex_less(
                        rs[j].published_at@,
                        dk,
                    ) by {
                        assert(release_matches(init[j], name, version));
                        let dj = rs[j].published_at@;
                        assert(!lex_less(dp, dj));
                        lemma_lex_less_total(dp, dj);
                        if dj != dp {
                            lemma_lex_less_trans(dj, dp, dk);
                        }
                    }
                } else {
                    assert forall|j: int|
                        0 <= j < rs.len() && release_matches(#[trigger] rs[j], name, version) implies !lex_less(
                        dp,
                        rs[j].published_at@,
                    ) by {
                        if j < k {
                            assert(release_matches(init[j], name, version));
                        }
                    }
                    assert forall|j: int|
                        0 <= j < p && release_matches(#[trigger] rs[j], name, version) implies lex_less(
                        rs[j].published_at@,
                        dp,
                    ) by {
                        assert(release_matches(init[j], name, version));
                    }
                }
            },
            None => {
                if release_matches(rs[k], name, version) {
                    lemma_lex_less_irreflexive(rs[k].published_at@);
                    assert forall|j: int|
                        0 <= j < rs.len() && release_matches(#[trigger] rs[j], name, version) implies !lex_less(
                        rs[k].published_at@,
                        rs[j].published_at@,
                    ) by {
                        if j < k {
                            assert(release_matches(init[j], name, version));
                        }
                    }
                    assert forall|j: int|
                        0 <= j < k && release_matches(#[trigger] rs[j], name, version) implies lex_less(
                        rs[j].published_at@,
                        rs[k].published_at@,
                    ) by {
                        assert(release_matches(init[j], name, version));
                    }
                }
            },
        }
    }
}

} // verus!
