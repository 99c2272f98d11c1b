//! Finding the game's directory: the Steam library list, the processes
//! that run, and the choice among the candidates found.

use vstd::prelude::*;
use crate::text::{chars_of, push_char};

verus! {

/// A character of the Unicode `White_Space` property, which the pattern
/// class `\s` matches.
pub open spec fn is_white_space(c: char) -> bool {
    ||| '\t' <= c && c <= '\r'
    ||| c == ' '
    ||| c == '\u{85}'
    ||| c == '\u{a0}'
    ||| c == '\u{1680}'
    ||| '\u{2000}' <= c && c <= '\u{200a}'
    ||| c == '\u{2028}'
    ||| c == '\u{2029}'
    ||| c == '\u{202f}'
    ||| c == '\u{205f}'
    ||| c == '\u{3000}'
}

/// The index after the run of white space that starts at `i`.
pub open spec fn white_space_end(s: Seq<char>, i: int) -> int
    decreases s.len() - i,
{
    if 0 <= i < s.len() && is_white_space(s[i]) {
        white_space_end(s, i + 1)
    } else {
        i
    }
}

/// The key `"path"`, quotes included.
pub open spec fn path_key() -> Seq<char> {
    seq!['"', 'p', 'a', 't', 'h', '"']
}

/// The value of a `path` line of `libraryfolders.vdf`, as the pattern
/// `^\s+"path"\s+"(?P<directory>.+)"$` captures it: white space, the key,
/// white space, then a quoted value of at least one character that runs
/// to the last character of the line and holds no line feed.
pub open spec fn library_path_value(line: Seq<char>) -> Option<Seq<char>> {
    let a = white_space_end(line, 0);
    let b = a + 6;
    let c = white_space_end(line, b);
    if a > 0 && b <= line.len() && line.subrange(a, b) == path_key() && c > b
        && c + 2 < line.len() && line[c] == '"' && line[line.len() - 1] == '"'
        && (forall|i: int| c < i < line.len() - 1 ==> line[i] != '\n')
    {
        Some(line.subrange(c + 1, line.len() - 1))
    } else {
        None
    }
}

/// `s` with each pair of backslashes, read from the left, made one.
pub open spec fn collapse_backslashes(s: Seq<char>) -> Seq<char>
    decreases s.len(),
{
    if s.len() == 0 {
        s
    } else if s.len() >= 2 && s[0] == '\\' && s[1] == '\\' {
        seq!['\\'] + collapse_backslashes(s.skip(2))
    } else {
        seq![s[0]] + collapse_backslashes(s.skip(1))
    }
}

/// The library directory that a line of `libraryfolders.vdf` names.
pub open spec fn library_folder(line: Seq<char>) -> Option<Seq<char>> {
    match library_path_value(line) {
        Some(v) => Some(collapse_backslashes(v)),
        None => None,
    }
}

fn white_space(c: char) -> (b: bool)
    ensures
        b == is_white_space(c),
{
    ('\t' <= c && c <= '\r') || c == ' ' || c == '\u{85}' || c == '\u{a0}' || c == '\u{1680}'
        || ('\u{2000}' <= c && c <= '\u{200a}') || c == '\u{2028}' || c == '\u{2029}'
        || c == '\u{202f}' || c == '\u{205f}' || c == '\u{3000}'
}

fn skip_white_space(s: &Vec<char>, i: usize) -> (j: usize)
    requires
        i <= s@.len(),
    ensures
        j == white_space_end(s@, i as int),
        i <= j <= s@.len(),
    decreases s@.len() - i,
{
    if i < s.len() && white_space(s[i]) {
        skip_white_space(s, i + 1)
    } else {
        i
    }
}

/// The value of a `path` line, `None` for any other line.
pub fn parse_library_path(line: &str) -> (v: Option<String>)
    ensures
        v matches Some(s) ==> library_path_value(line@) == Some(s@),
        v is None ==> library_path_value(line@) is None,
{
    let cs = chars_of(line);
    let n = cs.len();
    let a = skip_white_space(&cs, 0);
    if a == 0 || n - a < 6 {
        return None;
    }
    let b = a + 6;
    if !(cs[a] == '"' && cs[a + 1] == 'p' && cs[a + 2] == 'a' && cs[a + 3] == 't' && cs[a + 4] == 'h'
        && cs[a + 5] == '"') {
        assert(cs@.subrange(a as int, b as int) != path_key()) by {
            if cs@.subrange(a as int, b as int) == path_key() {
                assert(cs@.subrange(a as int, b as int)[0] == cs@[a as int]);
                assert(cs@.subrange(a as int, b as int)[1] == cs@[a + 1]);
                assert(cs@.subrange(a as int, b as int)[2] == cs@[a + 2]);
                assert(cs@.subrange(a as int, b as int)[3] == cs@[a + 3]);
                assert(cs@.subrange(a as int, b as int)[4] == cs@[a + 4]);
                assert(cs@.subrange(a as int, b as int)[5] == cs@[a + 5]);
            }
        }
        return None;
    }
    assert(cs@.subrange(a as int, b as int) =~= path_key());
    let c = skip_white_space(&cs, b);
    if c == b || n - c < 3 || cs[c] != '"' || cs[n - 1] != '"' {
        return None;
    }
    let mut value = String::new();
    let mut k: usize = c + 1;
    while k < n - 1
        invariant
            c + 1 <= k <= n - 1,
            n == cs@.len(),
            cs@ == line@,
            a == white_space_end(cs@, 0),
            b == a + 6,
            c == white_space_end(cs@, b as int),
            value@ == cs@.subrange(c + 1, k as int),
            forall|i: int| c < i < k ==> cs@[i] != '\n',
        decreases n - k,
    {
        if cs[k] == '\n' {
            assert(cs@[k as int] == '\n');
            assert(!(forall|i: int| c < i < cs@.len() - 1 ==> cs@[i] != '\n'));
            assert(library_path_value(cs@) is None);
            return None;
        }
        push_char(&mut value, cs[k]);
        k = k + 1;
        assert(value@ =~= cs@.subrange(c + 1, k as int));
    }
    Some(value)
}

/// The library directory that a line of `libraryfolders.vdf` names:
/// the value of a `path` line with doubled backslashes made single;
/// `None` for any other line.
pub fn library_folder_from_line(line: &str) -> (v: Option<String>)
    ensures
        v matches Some(s) ==> library_folder(line@) == Some(s@),
        v is None ==> library_folder(line@) is None,
{
    match parse_library_path(line) {
        Some(value) => Some(collapse_double_backslashes(value.as_str())),
        None => None,
    }
}

/// `s` with each pair of backslashes, read from the left, made one
/// (`str::replace` of `\\` by `\`).
pub fn collapse_double_backslashes(s: &str) -> (r: String)
    ensures
        r@ == collapse_backslashes(s@),
{
    let cs = chars_of(s);
    let n = cs.len();
    let mut out = String::new();
    let mut k: usize = 0;
    assert(cs@.skip(0) =~= cs@);
    assert(out@ + collapse_backslashes(cs@) =~= collapse_backslashes(cs@));
    while k < n
        invariant
            k <= n,
            n == cs@.len(),
            out@ + collapse_backslashes(cs@.skip(k as int)) == collapse_backslashes(cs@),
        decreases n - k,
    {
        let ghost rest = cs@.skip(k as int);
        if k + 1 < n && cs[k] == '\\' && cs[k + 1] == '\\' {
            push_char(&mut out, '\\');
            assert(rest.skip(2) =~= cs@.skip(k + 2));
            k = k + 2;
        } else {
            push_char(&mut out, cs[k]);
            assert(rest.skip(1) =~= cs@.skip(k + 1));
            k = k + 1;
        }
        assert(out@ + collapse_backslashes(cs@.skip(k as int)) =~= collapse_backslashes(cs@));
    }
    assert(cs@.skip(n as int) =~= Seq::<char>::empty());
    assert(cs@.skip(0) =~= cs@);
    out
}

} // verus!

verus! {

/// All characters of `s` are white space.
pub open spec fn all_white_space(s: Seq<char>) -> bool {
    forall|i: int| 0 <= i < s.len() ==> is_white_space(#[trigger] s[i])
}

/// The lines the pattern matches: white space, the key, white space, a
/// quote, a value of at least one character without line feed, a quote.
pub open spec fn is_path_line(line: Seq<char>, lead: Seq<char>, gap: Seq<char>, value: Seq<char>) -> bool {
    &&& lead.len() > 0 && all_white_space(lead)
    &&& gap.len() > 0 && all_white_space(gap)
    &&& value.len() > 0 && (forall|i: int| 0 <= i < value.len() ==> #[trigger] value[i] != '\n')
    &&& line == lead + path_key() + gap + seq!['"'] + value + seq!['"']
}

proof fn lemma_white_space_run(s: Seq<char>, i: int, j: int)
    requires
        0 <= i <= j <= s.len(),
        forall|k: int| i <= k < j ==> is_white_space(#[trigger] s[k]),
        j == s.len() || !is_white_space(s[j]),
    ensures
        white_space_end(s, i) == j,
    decreases j - i,
{
    if i < j {
        lemma_white_space_run(s, i + 1, j);
    }
}

proof fn lemma_white_space_end_bounds(s: Seq<char>, i: int)
    requires
        0 <= i <= s.len(),
    ensures
        i <= white_space_end(s, i) <= s.len(),
        forall|k: int| i <= k < white_space_end(s, i) ==> is_white_space(#[trigger] s[k]),
    decreases s.len() - i,
{
    if i < s.len() && is_white_space(s[i]) {
        lemma_white_space_end_bounds(s, i + 1);
    }
}

/// Every line of the form the pattern describes gives its value.
pub proof fn lemma_path_line_gives_value(lead: Seq<char>, gap: Seq<char>, value: Seq<char>)
    requires
        lead.len() > 0 && all_white_space(lead),
        gap.len() > 0 && all_white_space(gap),
        value.len() > 0,
        forall|i: int| 0 <= i < value.len() ==> #[trigger] value[i] != '\n',
    ensures
        library_path_value(lead + path_key() + gap + seq!['"'] + value + seq!['"']) == Some(value),
{
    let line = lead + path_key() + gap + seq!['"'] + value + seq!['"'];
    let a = lead.len() as int;
    let b = a + 6;
    let c = b + gap.len();
    assert forall|k: int| 0 <= k < a implies is_white_space(#[trigger] line[k]) by {
        assert(line[k] == lead[k]);
    }
    assert(line[a] == '"');
    lemma_white_space_run(line, 0, a);
    assert forall|k: int| b <= k < c implies is_white_space(#[trigger] line[k]) by {
        assert(line[k] == gap[k - b]);
    }
    assert(line[c] == '"');
    lemma_white_space_run(line, b, c);
    assert(line.subrange(a, b) =~= path_key());
    assert forall|i: int| c < i < line.len() - 1 implies line[i] != '\n' by {
        assert(line[i] == value[i - c - 1]);
    }
    assert(line.subrange(c + 1, line.len() - 1) =~= value);
}

/// Every line that gives a value has the form the pattern describes.
pub proof fn lemma_value_comes_from_path_line(line: Seq<char>)
    requires
        library_path_value(line) is Some,
    ensures
        exists|lead: Seq<char>, gap: Seq<char>|
            is_path_line(line, lead, gap, library_path_value(line)->0),
{
    let a = white_space_end(line, 0);
    let b = a + 6;
    let c = white_space_end(line, b);
    lemma_white_space_end_bounds(line, 0);
    lemma_white_space_end_bounds(line, b);
    let lead = line.subrange(0, a);
    let gap = line.subrange(b, c);
    let value = library_path_value(line)->0;
    assert forall|i: int| 0 <= i < lead.len() implies is_white_space(#[trigger] lead[i]) by {
        assert(lead[i] == line[i]);
    }
    assert forall|i: int| 0 <= i < gap.len() implies is_white_space(#[trigger] gap[i]) by {
        assert(gap[i] == line[b + i]);
    }
    assert forall|i: int| 0 <= i < value.len() implies #[trigger] value[i] != '\n' by {
        assert(value[i] == line[c + 1 + i]);
    }
    assert(line =~= lead + path_key() + gap + seq!['"'] + value + seq!['"']);
    assert(is_path_line(line, lead, gap, value));
}

} // verus!

verus! {

/// Where the game sits below a Steam library directory.
pub const GAME_SUBDIRECTORY: &'static str = "steamapps\\common\\Counter-Strike Global Offensive\\csgo";

/// Where the game's and Steam's processes stand in the list of running
/// processes, when such processes run.
pub struct ProcessIndices {
    pub game: Option<usize>,
    pub steam: Option<usize>,
}

/// The position of the last name in `names` equal to `name`.
pub open spec fn last_index_named(names: Seq<Seq<char>>, name: Seq<char>) -> Option<int>
    decreases names.len(),
{
    if names.len() == 0 {
        None
    } else if names.last() == name {
        Some(names.len() - 1)
    } else {
        last_index_named(names.drop_last(), name)
    }
}

/// The executable name of the game's process.
pub open spec fn game_process_name() -> Seq<char> {
    seq!['c', 's', 'g', 'o', '.', 'e', 'x', 'e']
}

/// The executable name of Steam's process.
pub open spec fn steam_process_name() -> Seq<char> {
    seq!['s', 't', 'e', 'a', 'm', '.', 'e', 'x', 'e']
}

/// The names of a list of strings.
pub open spec fn names_view(names: Seq<String>) -> Seq<Seq<char>> {
    names.map_values(|n: String| n@)
}

/// An index as a number.
pub open spec fn index_view(i: Option<usize>) -> Option<int> {
    match i {
        Some(k) => Some(k as int),
        None => None,
    }
}

/// Finds, among the executable names of the running processes in the
/// order they were listed, the game's process and Steam's; where several
/// run, the one listed last.
pub fn scan_processes(names: &Vec<String>) -> (d: ProcessIndices)
    ensures
        index_view(d.game) == last_index_named(names_view(names@), game_process_name()),
        index_view(d.steam) == last_index_named(names_view(names@), steam_process_name()),
{
    let game_name = String::from_str("csgo.exe");
    let steam_name = String::from_str("steam.exe");
    proof {
        reveal_strlit("csgo.exe");
        reveal_strlit("steam.exe");
        assert(game_name@ =~= game_process_name());
        assert(steam_name@ =~= steam_process_name());
    }
    let mut game: Option<usize> = None;
    let mut steam: Option<usize> = None;
    let n = names.len();
    let mut k: usize = 0;
    while k < n
        invariant
            k <= n,
            n == names@.len(),
            game_name@ == game_process_name(),
            steam_name@ == steam_process_name(),
            index_view(game) == last_index_named(names_view(names@).take(k as int), game_process_name()),
            index_view(steam) == last_index_named(names_view(names@).take(k as int), steam_process_name()),
        decreases n - k,
    {
        let ghost before = names_view(names@).take(k as int);
        if names[k] == game_name {
            game = Some(k);
        } else if names[k] == steam_name {
            steam = Some(k);
        }
        k = k + 1;
        assert(names_view(names@).take(k as int).drop_last() =~= before);
        assert(names_view(names@).take(k as int).last() == names@[k - 1]@);
    }
    assert(names_view(names@).take(n as int) =~= names_view(names@));
    ProcessIndices { game, steam }
}

/// What the library directories that hold the game come to.
pub enum LibraryChoice<T> {
    /// Exactly one library holds the game: its game directory.
    Found(T),
    /// Several libraries hold the game, and none is picked: all of them.
    Several(Vec<T>),
    /// No library holds the game.
    NotFound,
}

/// The game directory when exactly one candidate was found; several
/// candidates, or none, give no directory.
pub fn choose_library_path<T>(candidates: Vec<T>) -> (c: LibraryChoice<T>)
    ensures
        candidates@.len() == 1 <==> c is Found,
        c matches LibraryChoice::Found(p) ==> p == candidates@[0],
        candidates@.len() > 1 <==> c is Several,
        c matches LibraryChoice::Several(all) ==> all@ == candidates@,
        candidates@.len() == 0 <==> c is NotFound,
{
    let n = candidates.len();
    if n == 1 {
        let mut candidates = candidates;
        match candidates.pop() {
            Some(p) => LibraryChoice::Found(p),
            None => LibraryChoice::NotFound,
        }
    } else if n > 1 {
        LibraryChoice::Several(candidates)
    } else {
        LibraryChoice::NotFound
    }
}

/// The next move of the search for the game's directory.
#[derive(Clone, Copy, Debug, PartialEq, Eq, Structural)]
pub enum SearchStep {
    /// The game's process runs and its directory exists: use it.
    UseGameDirectory,
    /// Look through the libraries of the Steam process that runs.
    SearchLibraries,
    /// Neither is to be had.
    GiveUp,
}

/// The search's move: the game process's directory first, when it exists;
/// else Steam's libraries, when Steam runs; else nothing.
pub open spec fn search_step(found: ProcessIndices, game_directory_exists: bool) -> SearchStep {
    if found.game is Some && game_directory_exists {
        SearchStep::UseGameDirectory
    } else if found.steam is Some {
        SearchStep::SearchLibraries
    } else {
        SearchStep::GiveUp
    }
}

/// Where to look for the game, given the processes found and whether the
/// game process's directory exists (read only when that process runs).
pub fn locate_game(found: &ProcessIndices, game_directory_exists: bool) -> (s: SearchStep)
    ensures
        s == search_step(*found, game_directory_exists),
{
    if found.game.is_some() && game_directory_exists {
        SearchStep::UseGameDirectory
    } else if found.steam.is_some() {
        SearchStep::SearchLibraries
    } else {
        SearchStep::GiveUp
    }
}

/// The search order: the game process's directory is used exactly when
/// that process runs and its directory exists; otherwise Steam's libraries
/// are searched exactly when Steam runs; only with neither does the search
/// give up. Without a game process, whether a game directory exists does
/// not matter.
pub proof fn lemma_search_order(found: ProcessIndices, game_directory_exists: bool)
    ensures
        (search_step(found, game_directory_exists) == SearchStep::UseGameDirectory)
            <==> (found.game is Some && game_directory_exists),
        (search_step(found, game_directory_exists) == SearchStep::SearchLibraries)
            <==> (found.steam is Some && !(found.game is Some && game_directory_exists)),
        (search_step(found, game_directory_exists) == SearchStep::GiveUp)
            <==> (found.steam is None && !(found.game is Some && game_directory_exists)),
        found.game is None ==> search_step(found, true) == search_step(found, false),
        found.steam is Some ==> search_step(found, game_directory_exists) != SearchStep::GiveUp,
{
}

/// The characters of `s` other than backslashes, in order.
pub open spec fn without_backslashes(s: Seq<char>) -> Seq<char>
    decreases s.len(),
{
    if s.len() == 0 {
        s
    } else if s[0] == '\\' {
        without_backslashes(s.skip(1))
    } else {
        seq![s[0]] + without_backslashes(s.skip(1))
    }
}

proof fn lemma_without_backslashes_concat(a: Seq<char>, b: Seq<char>)
    ensures
        without_backslashes(a + b) == without_backslashes(a) + without_backslashes(b),
    decreases a.len(),
{
    if a.len() == 0 {
        assert(a + b =~= b);
        assert(without_backslashes(a) + without_backslashes(b) =~= without_backslashes(b));
    } else {
        assert((a + b).skip(1) =~= a.skip(1) + b);
        assert((a + b)[0] == a[0]);
        lemma_without_backslashes_concat(a.skip(1), b);
        assert(without_backslashes(a + b) =~= without_backslashes(a) + without_backslashes(b));
    }
}

/// Collapsing touches backslashes only: every other character is kept, in
/// order, and none is added.
pub proof fn lemma_collapse_keeps_other_characters(s: Seq<char>)
    ensures
        without_backslashes(collapse_backslashes(s)) == without_backslashes(s),
    decreases s.len(),
{
    if s.len() == 0 {
    } else if s.len() >= 2 && s[0] == '\\' && s[1] == '\\' {
        lemma_collapse_keeps_other_characters(s.skip(2));
        lemma_without_backslashes_concat(seq!['\\'], collapse_backslashes(s.skip(2)));
        assert(s.skip(1).skip(1) =~= s.skip(2));
        assert(without_backslashes(seq!['\\']) =~= Seq::<char>::empty()) by {
            assert(seq!['\\'].skip(1) =~= Seq::<char>::empty());
            assert(without_backslashes(seq!['\\'].skip(1)) =~= Seq::<char>::empty());
        }
        assert(s.skip(1)[0] == '\\');
        assert(without_backslashes(s) == without_backslashes(s.skip(1)));
        assert(without_backslashes(s.skip(1)) == without_backslashes(s.skip(1).skip(1)));
        assert(without_backslashes(collapse_backslashes(s)) =~= without_backslashes(s));
    } else {
        lemma_collapse_keeps_other_characters(s.skip(1));
        lemma_without_backslashes_concat(seq![s[0]], collapse_backslashes(s.skip(1)));
        assert(seq![s[0]].skip(1) =~= Seq::<char>::empty());
        assert(without_backslashes(seq![s[0]].skip(1)) =~= Seq::<char>::empty());
        assert(seq![s[0]][0] == s[0]);
        assert(without_backslashes(collapse_backslashes(s)) =~= without_backslashes(s));
    }
}

/// A text without backslashes is left as it is.
pub proof fn lemma_collapse_without_backslashes(s: Seq<char>)
    requires
        forall|i: int| 0 <= i < s.len() ==> s[i] != '\\',
    ensures
        collapse_backslashes(s) == s,
    decreases s.len(),
{
    if s.len() > 0 {
        assert forall|i: int| 0 <= i < s.skip(1).len() implies s.skip(1)[i] != '\\' by {
            assert(s.skip(1)[i] == s[i + 1]);
        }
        lemma_collapse_without_backslashes(s.skip(1));
        assert(seq![s[0]] + s.skip(1) =~= s);
    }
}

/// Pairs are read from the left: a text cut after a character that is not
/// a backslash collapses piece by piece, and a pair of backslashes
/// collapses to one.
pub proof fn lemma_collapse_in_pieces(a: Seq<char>, b: Seq<char>)
    requires
        a.len() == 0 || a.last() != '\\',
    ensures
        collapse_backslashes(a + b) == collapse_backslashes(a) + collapse_backslashes(b),
        collapse_backslashes(seq!['\\', '\\'] + b) == seq!['\\'] + collapse_backslashes(b),
    decreases a.len(),
{
    assert((seq!['\\', '\\'] + b).skip(2) =~= b);
    if a.len() == 0 {
        assert(a + b =~= b);
        assert(collapse_backslashes(a) + collapse_backslashes(b) =~= collapse_backslashes(b));
    } else if a.len() >= 2 && a[0] == '\\' && a[1] == '\\' {
        assert((a + b).skip(2) =~= a.skip(2) + b);
        assert(a.skip(2).len() == 0 || a.skip(2).last() == a.last());
        lemma_collapse_in_pieces(a.skip(2), b);
        assert(collapse_backslashes(a + b) =~= collapse_backslashes(a) + collapse_backslashes(b));
    } else {
        assert((a + b).skip(1) =~= a.skip(1) + b);
        assert(a.skip(1).len() == 0 || a.skip(1).last() == a.last());
        if a.len() == 1 {
            assert(a[0] != '\\');
        }
        lemma_collapse_in_pieces(a.skip(1), b);
        assert(collapse_backslashes(a + b) =~= collapse_backslashes(a) + collapse_backslashes(b));
    }
}

/// A backslash that is not followed by another is kept.
pub proof fn lemma_collapse_keeps_a_lone_backslash(b: Seq<char>)
    requires
        b.len() == 0 || b[0] != '\\',
    ensures
        collapse_backslashes(seq!['\\'] + b) == seq!['\\'] + collapse_backslashes(b),
{
    assert((seq!['\\'] + b).skip(1) =~= b);
    if b.len() > 0 {
        assert((seq!['\\'] + b)[1] == b[0]);
    }
}

/// The directory named by a path line is its value with every pair of
/// backslashes made one, and all other characters kept in order; a value
/// without backslashes is the directory itself.
pub proof fn lemma_library_folder_keeps_the_name(line: Seq<char>)
    requires
        library_path_value(line) is Some,
    ensures
        library_folder(line) is Some,
        without_backslashes(library_folder(line)->0) == without_backslashes(library_path_value(line)->0),
        (forall|i: int| 0 <= i < library_path_value(line)->0.len() ==> library_path_value(line)->0[i] != '\\')
            ==> library_folder(line) == library_path_value(line),
{
    let v = library_path_value(line)->0;
    lemma_collapse_keeps_other_characters(v);
    if forall|i: int| 0 <= i < v.len() ==> v[i] != '\\' {
        lemma_collapse_without_backslashes(v);
    }
}

} // verus!
