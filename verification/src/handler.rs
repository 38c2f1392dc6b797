//! Resolves the files of a completed torrent: which episode each file is, and where it goes in
//! the media library.
use vstd::prelude::*;

use crate::feed_id;
use crate::single;
use crate::text;
use crate::tokenizer;
use crate::types::{
    AnimeIdentity, AnimeIdentityView, EpisodeKey, EpisodeKeyView, EpisodeRecord,
    EpisodeRecordView, TorrentFile, TorrentFileView,
};

verus! {

/// A file of a completed torrent.
#[derive(Debug, PartialEq)]
pub struct ResolvedFile {
    /// File name in the torrent.
    pub original_name: String,
    /// Path in the torrent.
    pub original_path: String,
    /// Episode identity.
    pub key: EpisodeKey,
    /// Normalised output name, such as `番剧名 S01E01.mp4`.
    pub target_name: String,
    /// Source path in the download staging directory.
    pub from: String,
    /// Destination path in the media library.
    pub to: String,
    /// Where the file is now.
    pub actual: String,
}

#[verifier::ext_equal]
pub struct ResolvedFileView {
    pub original_name: Seq<char>,
    pub original_path: Seq<char>,
    pub key: EpisodeKeyView,
    pub target_name: Seq<char>,
    pub from: Seq<char>,
    pub to: Seq<char>,
    pub actual: Seq<char>,
}

impl View for ResolvedFile {
    type V = ResolvedFileView;

    open spec fn view(&self) -> ResolvedFileView {
        ResolvedFileView {
            original_name: self.original_name@,
            original_path: self.original_path@,
            key: self.key@,
            target_name: self.target_name@,
            from: self.from@,
            to: self.to@,
            actual: self.actual@,
        }
    }
}

impl Clone for ResolvedFile {
    fn clone(&self) -> (r: Self)
        ensures
            r@ == self@,
    {
        ResolvedFile {
            original_name: self.original_name.clone(),
            original_path: self.original_path.clone(),
            key: self.key.clone(),
            target_name: self.target_name.clone(),
            from: self.from.clone(),
            to: self.to.clone(),
            actual: self.actual.clone(),
        }
    }
}

/// The views of resolved files.
pub open spec fn resolved_views(files: Seq<ResolvedFile>) -> Seq<ResolvedFileView> {
    Seq::new(files.len(), |i: int| files[i]@)
}

/// The views of torrent files.
pub open spec fn file_views(files: Seq<TorrentFile>) -> Seq<TorrentFileView> {
    Seq::new(files.len(), |i: int| files[i]@)
}

// ── File names ──

/// The last component of a `/`-separated path that is neither empty nor a dot.
pub open spec fn last_component(parts: Seq<Seq<char>>) -> Option<Seq<char>>
    decreases parts.len(),
{
    if parts.len() == 0 {
        None
    } else if parts.last().len() == 0 || parts.last() == seq!['.'] {
        last_component(parts.drop_last())
    } else {
        Some(parts.last())
    }
}

/// The file name that a path ends in; none for a path that ends in `..`.
pub open spec fn file_name(path: Seq<char>) -> Option<Seq<char>> {
    match last_component(text::split_on(path, '/')) {
        Some(name) => if name == seq!['.', '.'] {
            None
        } else {
            Some(name)
        },
        None => None,
    }
}

/// What stands behind the last dot of a file name, unless the name begins with that dot.
pub open spec fn extension(path: Seq<char>) -> Option<Seq<char>> {
    match file_name(path) {
        Some(name) => match text::rfind(name, seq!['.']) {
            Some(i) => if i == 0 {
                None
            } else {
                Some(name.skip(i + 1))
            },
            None => None,
        },
        None => None,
    }
}

/// The file name that a path ends in.
pub fn path_file_name(path: &str) -> (r: Option<String>)
    ensures
        text::opt(r) == file_name(path@),
{
    proof {
        reveal_strlit(".");
        reveal_strlit("..");
        assert("."@ =~= seq!['.']);
        assert(".."@ =~= seq!['.', '.']);
    }
    let parts = text::split(path, '/');
    let ghost all = text::views(parts@);
    let mut n: usize = parts.len();
    assert(all.take(n as int) =~= all);
    while n > 0
        invariant
            n <= parts@.len(),
            all == text::views(parts@),
            all == text::split_on(path@, '/'),
            last_component(all) == last_component(all.take(n as int)),
            "."@ == seq!['.'],
            ".."@ == seq!['.', '.'],
        decreases n,
    {
        let part = &parts[n - 1];
        assert(all.take(n as int).last() == part@);
        if !part.as_str().is_empty() && !(*part.as_str() == *".") {
            if *part.as_str() == *".." {
                return None;
            }
            return Some(part.clone());
        }
        assert(all.take(n as int).drop_last() =~= all.take(n - 1));
        n = n - 1;
    }
    None
}

/// The extension of the file name that a path ends in.
pub fn path_extension(path: &str) -> (r: Option<String>)
    ensures
        text::opt(r) == extension(path@),
{
    match path_file_name(path) {
        Some(name) => {
            let chars = text::chars_of(&name);
            let n: usize = chars.len();
            let mut dot: Vec<char> = Vec::new();
            dot.push('.');
            assert(dot@ =~= seq!['.']);
            match text::rfind_chars(&chars, &dot) {
                Some(i) => if i == 0 {
                    None
                } else {
                    let ext = text::text_of(&chars, i + 1, n);
                    assert(ext@ =~= name@.skip(i + 1));
                    Some(ext)
                },
                None => None,
            }
        },
        None => None,
    }
}

// ── Episode keys ──

/// The episode number that a file name carries; 0 where it carries none.
pub open spec fn file_episode(name: Seq<char>) -> u32 {
    match tokenizer::parsed_title(name).episode {
        Some(number) => single::decimal_whole(number),
        None => 0,
    }
}

fn parse_file_episode(name: &str) -> (r: u32)
    ensures
        r == file_episode(name@),
{
    match tokenizer::parse_torrent_title(name) {
        Some(title) => match title.episode {
            Some(number) => number.whole(),
            None => 0,
        },
        None => 0,
    }
}

/// The key of an episode, unless its number is 0.
pub open spec fn key_of(anime: AnimeIdentityView, episode: u32) -> Option<EpisodeKeyView> {
    if episode == 0 {
        None
    } else {
        Some(EpisodeKeyView { anime, episode })
    }
}

/// The view of an optional key.
pub open spec fn key_view(key: Option<EpisodeKey>) -> Option<EpisodeKeyView> {
    match key {
        Some(k) => Some(k@),
        None => None,
    }
}

/// Extracts the episode key from a file name; `None` if the name carries no number or 0.
pub fn file_to_episode_key(file_name: &str, anime: &AnimeIdentity) -> (r: Option<EpisodeKey>)
    ensures
        key_view(r) == key_of(anime@, file_episode(file_name@)),
{
    let episode: u32 = parse_file_episode(file_name);
    if episode == 0 {
        None
    } else {
        Some(EpisodeKey { anime: anime.clone(), episode })
    }
}

/// Whether two keys stand for the same anime and episode.
pub fn episode_keys_match(a: &EpisodeKey, b: &EpisodeKey) -> (r: bool)
    ensures
        r == (a@ == b@),
{
    a.anime.name == b.anime.name && a.anime.season == b.anime.season && a.episode == b.episode
}

// ── Names and paths ──

/// `<name> S<season>E<episode>.<ext>`, numbers of at least two digits.
pub open spec fn target_name(key: EpisodeKeyView, ext: Seq<char>) -> Seq<char> {
    key.anime.name + " S"@ + text::decimal2(key.anime.season as nat) + "E"@ + text::decimal2(
        key.episode as nat,
    ) + "."@ + ext
}

/// Builds a standardised output file name, such as `葬送的芙莉莲 S02E01.mkv`.
pub fn key_to_target_name(key: &EpisodeKey, ext: &str) -> (r: String)
    ensures
        r@ == target_name(key@, ext@),
{
    let mut out = key.anime.name.clone();
    out.append(" S");
    out.append(&text::decimal2_text(key.anime.season as u64));
    out.append("E");
    out.append(&text::decimal2_text(key.episode as u64));
    out.append(".");
    out.append(ext);
    out
}

/// The directory of a season in the media library.
pub open spec fn season_dir(library_dir: Seq<char>, anime: AnimeIdentityView) -> Seq<char> {
    library_dir + "/"@ + anime.name + "/S"@ + text::decimal2(anime.season as nat)
}

/// Builds the directory of a season in the media library.
pub fn make_season_dir(library_dir: &str, anime: &AnimeIdentity) -> (r: String)
    ensures
        r@ == season_dir(library_dir@, anime@),
{
    let mut out = library_dir.to_owned();
    out.append("/");
    out.append(&anime.name);
    out.append("/S");
    out.append(&text::decimal2_text(anime.season as u64));
    out
}

/// Builds the path of a file in the media library.
pub fn make_library_path(library_dir: &str, key: &EpisodeKey, target_name: &str) -> (r: String)
    ensures
        r@ == season_dir(library_dir@, key@.anime) + "/"@ + target_name@,
{
    let dir = make_season_dir(library_dir, &key.anime);
    text::join3(&dir, "/", target_name)
}

/// A file with its key: its names and paths.
pub open spec fn resolved_file(
    file: TorrentFileView,
    key: EpisodeKeyView,
    record: EpisodeRecordView,
    download_dir: Seq<char>,
    library_dir: Seq<char>,
) -> ResolvedFileView {
    let ext = match extension(file.name) {
        Some(e) => e,
        None => "mkv"@,
    };
    let from = download_dir + "/"@ + feed_id::id_text(record.feed_id) + "/"@ + file.path;
    ResolvedFileView {
        original_name: file.name,
        original_path: file.path,
        key,
        target_name: target_name(key, ext),
        from,
        to: season_dir(library_dir, key.anime) + "/"@ + target_name(key, ext),
        actual: from,
    }
}

fn resolve_file(
    file: &TorrentFile,
    key: EpisodeKey,
    record: &EpisodeRecord,
    download_dir: &str,
    library_dir: &str,
) -> (r: ResolvedFile)
    ensures
        r@ == resolved_file(file@, key@, record@, download_dir@, library_dir@),
{
    let ext = match path_extension(&file.name) {
        Some(e) => e,
        None => "mkv".to_owned(),
    };
    let target_name = key_to_target_name(&key, &ext);
    let mut from = download_dir.to_owned();
    from.append("/");
    from.append(&record.feed_id.to_text());
    from.append("/");
    from.append(&file.path);
    let to = make_library_path(library_dir, &key, &target_name);
    ResolvedFile {
        original_name: file.name.clone(),
        original_path: file.path.clone(),
        key,
        target_name,
        actual: from.clone(),
        from,
        to,
    }
}

/// The files that carry an episode number other than 0. The first of them takes the number of
/// the record where that is known; the others keep their own.
pub open spec fn resolved(
    files: Seq<TorrentFileView>,
    episodes: Seq<u32>,
    record: EpisodeRecordView,
    download_dir: Seq<char>,
    library_dir: Seq<char>,
) -> Seq<ResolvedFileView>
    decreases files.len(),
{
    if files.len() == 0 {
        seq![]
    } else {
        let n = files.len() - 1;
        let before = resolved(files.take(n), episodes, record, download_dir, library_dir);
        if episodes[n] == 0 {
            before
        } else {
            let episode = if before.len() == 0 && record.key.episode > 0 {
                record.key.episode
            } else {
                episodes[n]
            };
            let key = EpisodeKeyView { anime: record.key.anime, episode };
            before.push(resolved_file(files[n], key, record, download_dir, library_dir))
        }
    }
}

/// Resolves files whose episode numbers are given, 0 for none.
pub fn resolve_with(
    files: &Vec<TorrentFile>,
    episodes: &Vec<u32>,
    record: &EpisodeRecord,
    download_dir: &str,
    library_dir: &str,
) -> (r: Vec<ResolvedFile>)
    requires
        episodes@.len() == files@.len(),
    ensures
        resolved_views(r@) == resolved(
            file_views(files@),
            episodes@,
            record@,
            download_dir@,
            library_dir@,
        ),
{
    let ghost all = file_views(files@);
    let mut out: Vec<ResolvedFile> = Vec::new();
    let mut i: usize = 0;
    assert(resolved_views(out@) =~= seq![]);
    assert(all.take(0) =~= seq![]);
    while i < files.len()
        invariant
            i <= files@.len(),
            episodes@.len() == files@.len(),
            all == file_views(files@),
            resolved_views(out@) == resolved(
                all.take(i as int),
                episodes@,
                record@,
                download_dir@,
                library_dir@,
            ),
        decreases files@.len() - i,
    {
        let ghost before = resolved_views(out@);
        assert(all.take(i + 1).take(i as int) =~= all.take(i as int));
        assert(all.take(i + 1)[i as int] == files@[i as int]@);
        if episodes[i] != 0 {
            let episode: u32 = if out.len() == 0 && record.key.episode > 0 {
                record.key.episode
            } else {
                episodes[i]
            };
            let key = EpisodeKey { anime: record.key.anime.clone(), episode };
            let file = resolve_file(&files[i], key, record, download_dir, library_dir);
            let ghost entry = file@;
            out.push(file);
            assert(resolved_views(out@) =~= before.push(entry));
        }
        i = i + 1;
    }
    assert(all.take(i as int) =~= all);
    out
}

/// The episode numbers that file names carry.
pub open spec fn file_episodes(files: Seq<TorrentFileView>) -> Seq<u32> {
    Seq::new(files.len(), |i: int| file_episode(files[i].name))
}

/// Scans the files of a torrent through the tokenizer and works out where each goes.
///
/// `record.key` carries the expected anime and episode. Where the expected episode is known, it
/// overrides what the first file says.
pub fn resolve_files(
    files: &Vec<TorrentFile>,
    record: &EpisodeRecord,
    download_dir: &str,
    library_dir: &str,
) -> (r: Vec<ResolvedFile>)
    ensures
        resolved_views(r@) == resolved(
            file_views(files@),
            file_episodes(file_views(files@)),
            record@,
            download_dir@,
            library_dir@,
        ),
{
    let mut episodes: Vec<u32> = Vec::new();
    let mut i: usize = 0;
    while i < files.len()
        invariant
            i <= files@.len(),
            episodes@.len() == i,
            forall|j: int| 0 <= j < i ==> episodes@[j] == file_episode(files@[j]@.name),
        decreases files@.len() - i,
    {
        episodes.push(parse_file_episode(&files[i].name));
        i = i + 1;
    }
    assert(episodes@ =~= file_episodes(file_views(files@)));
    resolve_with(files, &episodes, record, download_dir, library_dir)
}

// ── Laws ──

/// No file is resolved to episode 0; every file goes into the season directory of the record's
/// anime; only the first may differ from what its own name says, and then it has the number of
/// the record.
pub proof fn law_resolved_files(
    files: Seq<TorrentFileView>,
    episodes: Seq<u32>,
    record: EpisodeRecordView,
    download_dir: Seq<char>,
    library_dir: Seq<char>,
)
    requires
        episodes.len() == files.len(),
    ensures
        resolved(files, episodes, record, download_dir, library_dir).len() <= files.len(),
        forall|i: int|
            #![trigger resolved(files, episodes, record, download_dir, library_dir)[i]]
            0 <= i < resolved(files, episodes, record, download_dir, library_dir).len() ==> {
                let f = resolved(files, episodes, record, download_dir, library_dir)[i];
                &&& f.key.anime == record.key.anime
                &&& f.key.episode != 0
                &&& (season_dir(library_dir, record.key.anime) + "/"@).is_prefix_of(f.to)
                &&& exists|j: int|
                    0 <= j < files.len() && (#[trigger] files[j]).name == f.original_name
                        && episodes[j] != 0 && (f.key.episode == episodes[j] || (i == 0
                        && f.key.episode == record.key.episode))
            },
    decreases files.len(),
{
    if files.len() > 0 {
        let n = files.len() - 1;
        law_resolved_files(
            files.take(n),
            episodes.take(n),
            record,
            download_dir,
            library_dir,
        );
        lemma_episodes_prefix(files.take(n), episodes, n, record, download_dir, library_dir);
        let before = resolved(files.take(n), episodes, record, download_dir, library_dir);
        let all = resolved(files, episodes, record, download_dir, library_dir);
        assert forall|i: int|
            #![trigger all[i]]
            0 <= i < all.len() implies {
            let f = all[i];
            &&& f.key.anime == record.key.anime
            &&& f.key.episode != 0
            &&& (season_dir(library_dir, record.key.anime) + "/"@).is_prefix_of(f.to)
            &&& exists|j: int|
                0 <= j < files.len() && (#[trigger] files[j]).name == f.original_name
                    && episodes[j] != 0 && (f.key.episode == episodes[j] || (i == 0
                    && f.key.episode == record.key.episode))
        } by {
            let f = all[i];
            if i < before.len() {
                assert(f == before[i]);
                let j = choose|j: int|
                    0 <= j < files.take(n).len() && (#[trigger] files.take(n)[j]).name
                        == f.original_name && episodes.take(n)[j] != 0 && (f.key.episode
                        == episodes.take(n)[j] || (i == 0 && f.key.episode
                        == record.key.episode));
                assert(files[j].name == f.original_name);
            } else {
                let dir = season_dir(library_dir, record.key.anime) + "/"@;
                assert(f.to.subrange(0, dir.len() as int) =~= dir);
                assert(files[n].name == f.original_name);
            }
        }
    }
}

proof fn lemma_episodes_prefix(
    files: Seq<TorrentFileView>,
    episodes: Seq<u32>,
    n: int,
    record: EpisodeRecordView,
    download_dir: Seq<char>,
    library_dir: Seq<char>,
)
    requires
        files.len() <= n <= episodes.len(),
    ensures
        resolved(files, episodes, record, download_dir, library_dir) == resolved(
            files,
            episodes.take(n),
            record,
            download_dir,
            library_dir,
        ),
    decreases files.len(),
{
    if files.len() > 0 {
        lemma_episodes_prefix(
            files.take(files.len() - 1),
            episodes,
            n,
            record,
            download_dir,
            library_dir,
        );
    }
}

/// The name of a file is what follows the last slash of its path, unless that is empty or stands
/// for a directory.
pub proof fn law_file_name_follows_the_last_slash(dir: Seq<char>, name: Seq<char>)
    requires
        name.len() > 0,
        !name.contains('/'),
        name != seq!['.'],
        name != seq!['.', '.'],
    ensures
        file_name(name) == Some(name),
        file_name(dir + "/"@ + name) == Some(name),
{
    reveal_strlit("/");
    assert("/"@ =~= seq!['/']);
    text::lemma_split_one(name, '/');
    text::lemma_split_joined(dir, '/', name);
    assert((text::split_on(dir, '/') + seq![name]).last() == name);
}

/// The extension of a file is what follows the last dot of its name; a name without a dot has no
/// extension.
pub proof fn law_extension_follows_the_last_dot(base: Seq<char>, ext: Seq<char>)
    requires
        base.len() > 0,
        !base.contains('/'),
        !ext.contains('/'),
        !ext.contains('.'),
        ext.len() > 0,
    ensures
        extension(base + "."@ + ext) == Some(ext),
        !base.contains('.') ==> extension(base) is None,
{
    reveal_strlit(".");
    assert("."@ =~= seq!['.']);
    let name = base + seq!['.'] + ext;
    assert(!name.contains('/')) by {
        if name.contains('/') {
            let k = choose|k: int| 0 <= k < name.len() && name[k] == '/';
            if k < base.len() {
                assert(base[k] == '/');
            } else if k > base.len() {
                assert(ext[k - base.len() - 1] == '/');
            }
        }
    }
    assert(name.len() >= 3);
    law_file_name_follows_the_last_slash(seq![], name);
    text::lemma_rfind_char(base, '.', ext);
    assert(name.skip(base.len() as int + 1) =~= ext);
    if !base.contains('.') {
        if base == seq!['.'] || base == seq!['.', '.'] {
            assert(base[0] == '.');
        }
        law_file_name_follows_the_last_slash(seq![], base);
        text::lemma_rfind_upto(base, seq!['.'], base.len() - 1);
        if let Some(k) = text::rfind(base, seq!['.']) {
            assert(base.subrange(k, k + 1)[0] == '.');
            assert(base[k] == '.');
        }
    }
}

/// `digits` is a number in at least two digits, without a `0` in front from three digits on.
pub open spec fn is_two_digits(digits: Seq<char>, n: nat) -> bool {
    &&& text::all_digits(digits)
    &&& text::value_of(digits) == n
    &&& n < 100 ==> digits.len() == 2
    &&& n >= 100 ==> digits.len() > 2 && digits[0] != '0'
}

/// A file of an episode goes to `<library>/<name>/S<season>/<name> S<season>E<episode>.<ext>`,
/// with season and episode in at least two digits.
pub open spec fn goes_home(
    file: ResolvedFileView,
    library_dir: Seq<char>,
    anime: AnimeIdentityView,
    episode: u32,
    ext: Seq<char>,
) -> bool {
    exists|season: Seq<char>, number: Seq<char>|
        is_two_digits(season, anime.season as nat) && is_two_digits(number, episode as nat)
            && file.target_name == #[trigger] (anime.name + " S"@ + season + "E"@ + number + "."@
            + ext) && file.to == library_dir + "/"@ + anime.name + "/S"@ + season + "/"@
            + file.target_name
}

/// How many of the first `k` files carry an episode number.
pub open spec fn numbered(episodes: Seq<u32>, k: int) -> int
    decreases k,
{
    if k <= 0 {
        0
    } else if episodes[k - 1] != 0 {
        numbered(episodes, k - 1) + 1
    } else {
        numbered(episodes, k - 1)
    }
}

/// `file` is resolved from a file of a torrent: it keeps the file's name and path, is taken from
/// the feed's directory in the staging area, and goes to its place in the library under the
/// extension that its name has, or under `mkv` where it has none.
pub open spec fn is_resolved_from(
    file: ResolvedFileView,
    original: TorrentFileView,
    record: EpisodeRecordView,
    download_dir: Seq<char>,
    library_dir: Seq<char>,
    episode: u32,
) -> bool {
    &&& file.original_name == original.name
    &&& file.original_path == original.path
    &&& file.key.anime == record.key.anime
    &&& file.key.episode == episode
    &&& file.from == download_dir + "/"@ + feed_id::id_text(record.feed_id) + "/"@ + original.path
    &&& file.actual == file.from
    &&& forall|base: Seq<char>, ext: Seq<char>|
        original.name == #[trigger] (base + "."@ + ext) && base.len() > 0 && !base.contains('/')
            && !ext.contains('/') && !ext.contains('.') && ext.len() > 0 ==> goes_home(
            file,
            library_dir,
            record.key.anime,
            episode,
            ext,
        )
    &&& original.name.len() > 0 && !original.name.contains('/') && !original.name.contains('.')
        ==> goes_home(file, library_dir, record.key.anime, episode, "mkv"@)
}

proof fn lemma_resolved_file(
    original: TorrentFileView,
    key: EpisodeKeyView,
    record: EpisodeRecordView,
    download_dir: Seq<char>,
    library_dir: Seq<char>,
)
    requires
        key.anime == record.key.anime,
    ensures
        is_resolved_from(
            resolved_file(original, key, record, download_dir, library_dir),
            original,
            record,
            download_dir,
            library_dir,
            key.episode,
        ),
{
    let file = resolved_file(original, key, record, download_dir, library_dir);
    let season = text::decimal2(key.anime.season as nat);
    let number = text::decimal2(key.episode as nat);
    text::law_two_digits(key.anime.season as nat);
    text::law_two_digits(key.episode as nat);
    assert forall|base: Seq<char>, ext: Seq<char>|
        original.name == #[trigger] (base + "."@ + ext) && base.len() > 0 && !base.contains('/')
            && !ext.contains('/') && !ext.contains('.') && ext.len() > 0 implies goes_home(
        file,
        library_dir,
        record.key.anime,
        key.episode,
        ext,
    ) by {
        law_extension_follows_the_last_dot(base, ext);
        assert(file.target_name == key.anime.name + " S"@ + season + "E"@ + number + "."@ + ext);
    }
    if original.name.len() > 0 && !original.name.contains('/') && !original.name.contains('.') {
        law_extension_follows_the_last_dot(original.name, seq!['x']);
        assert(file.target_name == key.anime.name + " S"@ + season + "E"@ + number + "."@
            + "mkv"@);
    }
}

/// Of the files of a torrent, those that carry an episode number are resolved, in their order, and
/// no others. Each keeps the number of its own name, but for the first of them, which takes the
/// number of the record where that is known; each goes to the place of its episode in the library.
pub proof fn law_each_numbered_file_goes_home(
    files: Seq<TorrentFileView>,
    episodes: Seq<u32>,
    record: EpisodeRecordView,
    download_dir: Seq<char>,
    library_dir: Seq<char>,
    j: int,
)
    requires
        files.len() <= episodes.len(),
    ensures
        resolved(files, episodes, record, download_dir, library_dir).len() == numbered(
            episodes,
            files.len() as int,
        ),
        0 <= j < files.len() && episodes[j] != 0 ==> {
            &&& 0 <= numbered(episodes, j) < resolved(
                files,
                episodes,
                record,
                download_dir,
                library_dir,
            ).len()
            &&& is_resolved_from(
                resolved(files, episodes, record, download_dir, library_dir)[numbered(
                    episodes,
                    j,
                )],
                files[j],
                record,
                download_dir,
                library_dir,
                if numbered(episodes, j) == 0 && record.key.episode > 0 {
                    record.key.episode
                } else {
                    episodes[j]
                },
            )
        },
    decreases files.len(),
{
    if files.len() > 0 {
        let n = files.len() - 1;
        let before = resolved(files.take(n), episodes, record, download_dir, library_dir);
        law_each_numbered_file_goes_home(
            files.take(n),
            episodes,
            record,
            download_dir,
            library_dir,
            j,
        );
        if episodes[n] != 0 {
            let episode = if before.len() == 0 && record.key.episode > 0 {
                record.key.episode
            } else {
                episodes[n]
            };
            let key = EpisodeKeyView { anime: record.key.anime, episode };
            lemma_resolved_file(files[n], key, record, download_dir, library_dir);
        }
        if 0 <= j < n {
            assert(files.take(n)[j] == files[j]);
        }
    }
}

} // verus!
