//! The catalogue of games: which files of a directory listing are games, for
//! which platform, and under which name they are shown.

use std::path::PathBuf;
use vstd::prelude::*;

verus! {

/// The console that a game was made for.
#[derive(Debug, Clone, Copy, PartialEq, Eq, Structural)]
pub enum Platform {
    GameBoy,
    GameBoyColor,
}

/// A game that can be selected.
#[derive(Debug, Clone)]
pub struct GameEntry {
    /// The file name without its extension.
    pub name: String,
    /// Where the file is.
    pub path: PathBuf,
    pub platform: Platform,
}

/// What a `GameEntry` holds.
pub struct GameEntryView {
    pub name: Seq<char>,
    pub path: PathBuf,
    pub platform: Platform,
}

impl View for GameEntry {
    type V = GameEntryView;

    open spec fn view(&self) -> GameEntryView {
        GameEntryView { name: self.name@, path: self.path, platform: self.platform }
    }
}

/// One entry of a directory listing, as the file system gave it.
#[derive(Debug, Clone)]
pub struct DirectoryEntry {
    /// Path of the entry.
    pub path: PathBuf,
    /// Its file name; `None` where the name is no text.
    pub file_name: Option<String>,
    /// Whether the entry is a regular file.
    pub is_file: bool,
}

/// What a catalogue holds, entry by entry.
pub open spec fn catalog_view(games: Seq<GameEntry>) -> Seq<GameEntryView> {
    Seq::new(games.len(), |i: int| games[i]@)
}

/// Index of the last `.` among the first `n` characters of `name`, or -1.
pub open spec fn last_dot(name: Seq<char>, n: nat) -> int
    decreases n,
{
    if n == 0 {
        -1
    } else if name[n - 1] == '.' {
        n - 1
    } else {
        last_dot(name, (n - 1) as nat)
    }
}

/// `last_dot` is the position of a `.` with no `.` behind it, and is -1 only
/// where there is no `.` at all.
pub proof fn lemma_last_dot(name: Seq<char>, n: nat)
    requires
        n <= name.len(),
    ensures
        -1 <= last_dot(name, n) < n,
        last_dot(name, n) >= 0 ==> name[last_dot(name, n)] == '.',
        forall|i: int| last_dot(name, n) < i < n ==> name[i] != '.',
    decreases n,
{
    if n > 0 && name[n - 1] != '.' {
        lemma_last_dot(name, (n - 1) as nat);
    }
}

/// Whether `c` is the lower-case ASCII letter `lower` or its capital.
pub open spec fn same_letter(c: char, lower: char) -> bool {
    c == lower || (0x41 <= c as u32 <= 0x5a && c as u32 + 0x20 == lower as u32)
}

/// Whether `text` is `lower`, a word of lower-case ASCII letters, whatever the
/// case of its letters.
pub open spec fn is_word(text: Seq<char>, lower: Seq<char>) -> bool {
    &&& text.len() == lower.len()
    &&& forall|i: int| 0 <= i < text.len() ==> same_letter(#[trigger] text[i], lower[i])
}

/// The platform that a file extension stands for.
pub open spec fn platform_of(extension: Seq<char>) -> Option<Platform> {
    if is_word(extension, seq!['g', 'b']) {
        Some(Platform::GameBoy)
    } else if is_word(extension, seq!['g', 'b', 'c']) {
        Some(Platform::GameBoyColor)
    } else {
        None
    }
}

/// The extension of a file name: what follows its last `.`, unless the name
/// has none or only begins with one.
pub open spec fn extension_of(file_name: Seq<char>) -> Option<Seq<char>> {
    let dot = last_dot(file_name, file_name.len());
    if dot > 0 {
        Some(file_name.subrange(dot + 1, file_name.len() as int))
    } else {
        None
    }
}

/// The name under which a game is shown and its platform, for a file name
/// with a recognised extension: the name is the file name without the
/// extension and its `.`.
pub open spec fn classified(file_name: Seq<char>) -> Option<(Seq<char>, Platform)> {
    match extension_of(file_name) {
        Some(extension) => match platform_of(extension) {
            Some(platform) => Some(
                (file_name.subrange(0, last_dot(file_name, file_name.len())), platform),
            ),
            None => None,
        },
        None => None,
    }
}

/// The game that a directory entry is, if it is one: a regular file whose
/// name is text and has a recognised extension.
pub open spec fn game_of(entry: DirectoryEntry) -> Option<GameEntryView> {
    if !entry.is_file {
        None
    } else {
        match entry.file_name {
            Some(file_name) => match classified(file_name@) {
                Some((name, platform)) => Some(
                    GameEntryView { name, path: entry.path, platform },
                ),
                None => None,
            },
            None => None,
        }
    }
}

/// The games among the first `n` entries of a listing, in the order of the
/// listing.
pub open spec fn scanned(entries: Seq<DirectoryEntry>, n: nat) -> Seq<GameEntryView>
    decreases n,
{
    if n == 0 {
        Seq::empty()
    } else {
        let earlier = scanned(entries, (n - 1) as nat);
        match game_of(entries[n - 1]) {
            Some(game) => earlier.push(game),
            None => earlier,
        }
    }
}

/// Whether `c` is the lower-case ASCII letter `lower` or its capital.
fn is_letter(c: char, lower: char) -> (same: bool)
    ensures
        same == same_letter(c, lower),
{
    let code: u32 = c as u32;
    c == lower || (0x41 <= code && code <= 0x5a && code + 0x20 == lower as u32)
}

/// The platform for the extension that begins behind position `dot` of
/// `file_name`.
fn platform_behind(file_name: &str, len: usize, dot: usize) -> (platform: Option<Platform>)
    requires
        len == file_name@.len(),
        dot < len,
    ensures
        platform == platform_of(file_name@.subrange(dot + 1, len as int)),
{
    let ghost extension = file_name@.subrange(dot + 1, len as int);
    let count: usize = len - dot - 1;
    if count != 2 && count != 3 {
        return None;
    }
    let first: bool = is_letter(file_name.get_char(dot + 1), 'g');
    let second: bool = is_letter(file_name.get_char(dot + 2), 'b');
    assert(extension[0] == file_name@[dot + 1] && extension[1] == file_name@[dot + 2]);
    if count == 2 {
        if first && second {
            Some(Platform::GameBoy)
        } else {
            None
        }
    } else {
        let third: bool = is_letter(file_name.get_char(dot + 3), 'c');
        assert(extension[2] == file_name@[dot + 3]);
        if first && second && third {
            Some(Platform::GameBoyColor)
        } else {
            None
        }
    }
}

/// Tells whether a file name is that of a game. For a game, returns the name
/// to show, which is the file name without its extension, and the platform
/// that the extension stands for; the case of the extension does not count.
pub fn classify(file_name: &str) -> (found: Option<(String, Platform)>)
    ensures
        match found {
            Some((name, platform)) => classified(file_name@) == Some((name@, platform)),
            None => classified(file_name@).is_none(),
        },
{
    let len: usize = file_name.unicode_len();
    let mut end: usize = len;
    while end > 0 && file_name.get_char(end - 1) != '.'
        invariant
            end <= len,
            len == file_name@.len(),
            last_dot(file_name@, len as nat) == last_dot(file_name@, end as nat),
        decreases end,
    {
        end -= 1;
    }
    if end <= 1 {
        return None;
    }
    let dot: usize = end - 1;
    match platform_behind(file_name, len, dot) {
        Some(platform) => {
            let name: String = file_name.substring_char(0, dot).to_owned();
            Some((name, platform))
        },
        None => None,
    }
}

/// Picks the games out of a directory listing, in the order of the listing.
/// Entries that are no regular files, whose name is no text, or whose
/// extension is missing or unknown are passed over.
pub fn scan(entries: &Vec<DirectoryEntry>) -> (games: Vec<GameEntry>)
    ensures
        catalog_view(games@) == scanned(entries@, entries@.len()),
{
    let mut games: Vec<GameEntry> = Vec::new();
    let mut i: usize = 0;
    while i < entries.len()
        invariant
            i <= entries@.len(),
            catalog_view(games@) =~= scanned(entries@, i as nat),
        decreases entries@.len() - i,
    {
        let entry: &DirectoryEntry = &entries[i];
        if entry.is_file {
            if let Some(file_name) = &entry.file_name {
                if let Some((name, platform)) = classify(file_name.as_str()) {
                    let ghost before = games@;
                    games.push(GameEntry { name, path: entry.path.clone(), platform });
                    assert(catalog_view(games@) =~= catalog_view(before).push(
                        game_of(entries@[i as int]).unwrap(),
                    ));
                }
            }
        }
        i += 1;
    }
    games
}

} // verus!
