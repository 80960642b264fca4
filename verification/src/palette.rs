//! The command palette: its commands and their search, the search history
//! kept between sessions, and the keyboard state machine.

use vstd::prelude::*;
use crate::i18n::{translate, translated, Locale};
use crate::icons::IconName;
use crate::shell::{section_label_key, AppSection};
use crate::text::{
    ascii_lower_chars, ascii_lower_seq, chars_of, contains_chars, has_infix, str_eq, string_of, to_lowercase,
    trim, trim_seq, unicode_lowercase,
};
use crate::theme::{theme_next, Theme};

verus! {

/// How many searches the history keeps.
pub const HISTORY_LIMIT: usize = 10;

/// Storage key under which the history is kept as a JSON list of strings.
pub const HISTORY_STORAGE_KEY: &'static str = "command_palette_history";

// ---------------------------------------------------------------------------
// History
// ---------------------------------------------------------------------------

/// The texts of a list of strings.
pub open spec fn texts(v: Seq<String>) -> Seq<Seq<char>> {
    v.map_values(|s: String| s@)
}

/// `h` without any entry equal to `key`, in order.
pub open spec fn without(h: Seq<Seq<char>>, key: Seq<char>) -> Seq<Seq<char>>
    decreases h.len(),
{
    if h.len() == 0 {
        Seq::empty()
    } else {
        let r = without(h.drop_last(), key);
        if h.last() == key {
            r
        } else {
            r.push(h.last())
        }
    }
}

/// The history after searching for `key`: `key` first, then the earlier
/// entries other than `key`, at most `HISTORY_LIMIT` in all.
pub open spec fn recorded(h: Seq<Seq<char>>, key: Seq<char>) -> Seq<Seq<char>> {
    let full = seq![key] + without(h, key);
    if full.len() <= 10 {
        full
    } else {
        full.take(10)
    }
}

/// Record a search in the history.
pub fn record_history(history: &mut Vec<String>, key: &str)
    ensures
        texts(final(history)@) == recorded(texts(old(history)@), key@),
{
    let ghost h = texts(history@);
    let mut out: Vec<String> = Vec::new();
    out.push(String::from_str(key));
    let mut i: usize = 0;
    while i < history.len()
        invariant
            i <= history@.len(),
            h == texts(history@),
            texts(out@) == seq![key@] + without(h.take(i as int), key@),
        decreases history@.len() - i,
    {
        let ghost t1 = h.take(i as int + 1);
        assert(t1.drop_last() =~= h.take(i as int));
        assert(t1.last() == history@[i as int]@);
        assert(without(t1, key@) == (if t1.last() == key@ {
            without(t1.drop_last(), key@)
        } else {
            without(t1.drop_last(), key@).push(t1.last())
        }));
        if !str_eq(history[i].as_str(), key) {
            let ghost before = out@;
            out.push(history[i].clone());
            assert(texts(out@) =~= texts(before).push(history@[i as int]@));
            assert(texts(out@) =~= seq![key@] + without(t1, key@));
        }
        i = i + 1;
    }
    assert(h.take(history@.len() as int) =~= h);
    let ghost full = texts(out@);
    out.truncate(HISTORY_LIMIT);
    assert(texts(out@) =~= recorded(h, key@));
    *history = out;
}

/// Remove the history entry at `index`; nothing happens when there is none.
/// Whether an entry was removed.
pub fn delete_history_entry(history: &mut Vec<String>, index: usize) -> (r: bool)
    ensures
        r == (index < old(history)@.len()),
        r ==> final(history)@ == old(history)@.remove(index as int),
        !r ==> final(history)@ == old(history)@,
{
    if index < history.len() {
        history.remove(index);
        true
    } else {
        false
    }
}

/// The list of strings that a JSON text denotes, when it denotes one, as
/// `serde_json` reads it.
pub uninterp spec fn json_string_list(json: Seq<char>) -> Option<Seq<Seq<char>>>;

/// A hexadecimal digit as `serde_json` writes it (lower case).
pub open spec fn hex_digit(d: int) -> char {
    seq!['0', '1', '2', '3', '4', '5', '6', '7', '8', '9', 'a', 'b', 'c', 'd', 'e', 'f'][d]
}

/// How `serde_json` writes one character inside a string: the quote, the
/// backslash and the control characters are escaped (short forms where JSON
/// has them, `\u00XX` for the others); every other character is written as
/// it is.
pub open spec fn json_escaped_char(c: char) -> Seq<char> {
    if c == '"' {
        seq!['\\', '"']
    } else if c == '\\' {
        seq!['\\', '\\']
    } else if c == '\u{8}' {
        seq!['\\', 'b']
    } else if c == '\t' {
        seq!['\\', 't']
    } else if c == '\n' {
        seq!['\\', 'n']
    } else if c == '\u{c}' {
        seq!['\\', 'f']
    } else if c == '\r' {
        seq!['\\', 'r']
    } else if (c as int) < 0x20 {
        seq!['\\', 'u', '0', '0', hex_digit((c as int) / 16), hex_digit((c as int) % 16)]
    } else {
        seq![c]
    }
}

/// The characters of a string, each escaped.
pub open spec fn json_escaped(s: Seq<char>) -> Seq<char>
    decreases s.len(),
{
    if s.len() == 0 {
        Seq::empty()
    } else {
        json_escaped(s.drop_last()) + json_escaped_char(s.last())
    }
}

/// The strings written one after another, each quoted, with commas between.
pub open spec fn json_items(items: Seq<Seq<char>>) -> Seq<char>
    decreases items.len(),
{
    if items.len() == 0 {
        Seq::empty()
    } else if items.len() == 1 {
        seq!['"'] + json_escaped(items[0]) + seq!['"']
    } else {
        json_items(items.drop_last()) + seq![','] + seq!['"'] + json_escaped(items.last()) + seq!['"']
    }
}

/// The compact JSON text `serde_json` writes for a list of strings: the
/// quoted items in brackets, with no spaces.
pub open spec fn json_of_strings(items: Seq<Seq<char>>) -> Seq<char> {
    seq!['['] + json_items(items) + seq![']']
}

/// Errors of `serde_json`, carried through as they are.
#[verifier::external_type_specification]
#[verifier::external_body]
pub struct ExJsonError(serde_json::Error);

/// Calls `serde_json::from_str::<Vec<String>>`: `Ok` exactly when the text is
/// a JSON array of strings, holding those strings. The JSON grammar itself is
/// not restated: the result is named by `json_string_list`.
#[verifier::external_body]
fn parse_string_list(json: &str) -> (r: Result<Vec<String>, serde_json::Error>)
    ensures
        r is Ok <==> json_string_list(json@) is Some,
        r matches Ok(v) ==> texts(v@) == json_string_list(json@)->0,
{
    serde_json::from_str::<Vec<String>>(json)
}

/// Calls `serde_json::to_string` on a list of strings. Its documentation
/// says serialising fails only when a `Serialize` impl decides to fail or a
/// map has non-string keys; a list of strings has neither, so the call
/// succeeds, and the compact formatter writes the text `json_of_strings`
/// describes.
#[verifier::external_body]
fn encode_string_list(items: &Vec<String>) -> (r: Result<String, serde_json::Error>)
    ensures
        r is Ok,
        r matches Ok(s) ==> s@ == json_of_strings(texts(items@)),
{
    serde_json::to_string(items)
}

/// The history a parsed stored value stands for: the list when it parsed,
/// otherwise an empty history.
pub fn history_or_empty(parsed: Result<Vec<String>, serde_json::Error>) -> (r: Vec<String>)
    ensures
        parsed matches Ok(v) ==> r == v,
        parsed is Err ==> r@.len() == 0,
{
    match parsed {
        Ok(v) => v,
        Err(_) => Vec::new(),
    }
}

/// The history read back from storage: nothing stored, or a value that is
/// not a JSON list of strings, gives an empty history.
pub fn history_from_storage(stored: Option<&str>) -> (r: Vec<String>)
    ensures
        stored matches Some(s) ==> (json_string_list(s@) is Some ==> texts(r@) == json_string_list(s@)->0),
        stored is None || json_string_list(stored->0@) is None ==> r@.len() == 0,
{
    match stored {
        Some(s) => history_or_empty(parse_string_list(s)),
        None => Vec::new(),
    }
}

/// The text to store for a history: its JSON form, which always exists for a
/// list of strings.
pub fn history_to_storage(history: &Vec<String>) -> (r: Option<String>)
    ensures
        r is Some,
        r matches Some(s) ==> s@ == json_of_strings(texts(history@)),
{
    match encode_string_list(history) {
        Ok(s) => Some(s),
        Err(_) => None,
    }
}

// ---------------------------------------------------------------------------
// Commands
// ---------------------------------------------------------------------------

#[derive(Debug, Clone, Copy, PartialEq, Eq, Structural)]
pub enum PaletteCommand {
    Repos,
    Connect,
    Keys,
    ToggleTheme,
    ChangeLanguage,
}

pub open spec fn all_commands() -> Seq<PaletteCommand> {
    seq![
        PaletteCommand::Repos,
        PaletteCommand::Connect,
        PaletteCommand::Keys,
        PaletteCommand::ToggleTheme,
        PaletteCommand::ChangeLanguage,
    ]
}

pub open spec fn command_label_key(c: PaletteCommand) -> Seq<char> {
    match c {
        PaletteCommand::Repos => "nav.repos"@,
        PaletteCommand::Connect => "nav.connect"@,
        PaletteCommand::Keys => "nav.keys"@,
        PaletteCommand::ToggleTheme => "palette.toggle_theme"@,
        PaletteCommand::ChangeLanguage => "palette.change_language"@,
    }
}

pub open spec fn command_icon(c: PaletteCommand) -> IconName {
    match c {
        PaletteCommand::Repos => IconName::Folder,
        PaletteCommand::Connect => IconName::Server,
        PaletteCommand::Keys => IconName::Key,
        PaletteCommand::ToggleTheme => IconName::Moon,
        PaletteCommand::ChangeLanguage => IconName::Globe,
    }
}

impl PaletteCommand {
    /// Every command, in the order the palette lists them.
    pub fn all() -> (r: Vec<PaletteCommand>)
        ensures
            r@ == all_commands(),
    {
        let r = vec![
            PaletteCommand::Repos,
            PaletteCommand::Connect,
            PaletteCommand::Keys,
            PaletteCommand::ToggleTheme,
            PaletteCommand::ChangeLanguage,
        ];
        assert(r@ =~= all_commands());
        r
    }

    /// String-table key of the command's label.
    pub fn label_key(self) -> (r: &'static str)
        ensures
            r@ == command_label_key(self),
    {
        match self {
            PaletteCommand::Repos => "nav.repos",
            PaletteCommand::Connect => "nav.connect",
            PaletteCommand::Keys => "nav.keys",
            PaletteCommand::ToggleTheme => "palette.toggle_theme",
            PaletteCommand::ChangeLanguage => "palette.change_language",
        }
    }

    /// The command's icon.
    pub fn icon(self) -> (r: IconName)
        ensures
            r == command_icon(self),
    {
        match self {
            PaletteCommand::Repos => IconName::Folder,
            PaletteCommand::Connect => IconName::Server,
            PaletteCommand::Keys => IconName::Key,
            PaletteCommand::ToggleTheme => IconName::Moon,
            PaletteCommand::ChangeLanguage => IconName::Globe,
        }
    }
}

/// The search text as the palette matches it: trimmed, then lower-cased.
pub open spec fn palette_query(query: Seq<char>) -> Seq<char> {
    unicode_lowercase(trim_seq(query))
}

/// Whether a command's label, in locale `l` and lower-cased, contains `q`.
pub open spec fn command_matches(l: Locale, c: PaletteCommand, q: Seq<char>) -> bool {
    has_infix(unicode_lowercase(translated(l, command_label_key(c))), q)
}

/// What the palette lists for a search: with an empty search, the first
/// `HISTORY_LIMIT` history entries (as positions); otherwise the commands
/// whose translated label contains the search.
pub enum PaletteListing {
    History(usize),
    Commands(Vec<PaletteCommand>),
}

/// The palette's list for `query` in locale `loc`, given the history length.
pub fn palette_listing(loc: Locale, query: &str, history_len: usize) -> (r: PaletteListing)
    ensures
        palette_query(query@).len() == 0 <==> r is History,
        r matches PaletteListing::History(n) ==> n == (if history_len < 10 { history_len } else { 10 }),
        r matches PaletteListing::Commands(cs) ==> cs@ == all_commands().filter(
            |c: PaletteCommand| command_matches(loc, c, palette_query(query@)),
        ),
{
    let trimmed = string_of(&trim(query));
    let q = chars_of(to_lowercase(trimmed.as_str()).as_str());
    if q.len() == 0 {
        return PaletteListing::History(if history_len < HISTORY_LIMIT { history_len } else { HISTORY_LIMIT });
    }
    let all = PaletteCommand::all();
    let ghost pred = |c: PaletteCommand| command_matches(loc, c, palette_query(query@));
    let mut r: Vec<PaletteCommand> = Vec::new();
    let mut i: usize = 0;
    while i < all.len()
        invariant
            all@ == all_commands(),
            i <= all@.len(),
            q@ == palette_query(query@),
            pred == (|c: PaletteCommand| command_matches(loc, c, palette_query(query@))),
            r@ == all@.take(i as int).filter(pred),
        decreases all@.len() - i,
    {
        reveal(Seq::filter);
        assert(all@.take(i as int + 1).drop_last() =~= all@.take(i as int));
        let c = all[i];
        let label = translate(loc, c.label_key());
        if contains_chars(&chars_of(to_lowercase(label).as_str()), &q) {
            r.push(c);
        }
        i = i + 1;
    }
    assert(all@.take(all@.len() as int) =~= all@);
    PaletteListing::Commands(r)
}

/// String-table key of the message shown when the list is empty: the history
/// message for an untouched search box, otherwise "no results".
pub fn empty_listing_key(query: &str) -> (r: &'static str)
    ensures
        query@.len() == 0 ==> r@ == "palette.empty_history"@,
        query@.len() != 0 ==> r@ == "palette.no_results"@,
{
    if query.is_empty() {
        "palette.empty_history"
    } else {
        "palette.no_results"
    }
}

// ---------------------------------------------------------------------------
// Keyboard and state
// ---------------------------------------------------------------------------

/// The keys the palette reacts to.
#[derive(Debug, Clone, Copy, PartialEq, Eq, Structural)]
pub enum PaletteKey {
    Escape,
    Down,
    Up,
    Enter,
    Other,
}

pub open spec fn palette_key_of(key: Seq<char>) -> PaletteKey {
    if ascii_lower_seq(key) == "escape"@ {
        PaletteKey::Escape
    } else if key == "ArrowDown"@ {
        PaletteKey::Down
    } else if key == "ArrowUp"@ {
        PaletteKey::Up
    } else if key == "Enter"@ {
        PaletteKey::Enter
    } else {
        PaletteKey::Other
    }
}

/// The palette key a keyboard event's key name stands for; Escape is
/// recognised in any ASCII case.
pub fn palette_key(key: &str) -> (r: PaletteKey)
    ensures
        r == palette_key_of(key@),
{
    let lower = ascii_lower_chars(&chars_of(key));
    let escape = chars_of("escape");
    if crate::text::chars_eq(&lower, &escape) {
        PaletteKey::Escape
    } else if str_eq(key, "ArrowDown") {
        PaletteKey::Down
    } else if str_eq(key, "ArrowUp") {
        PaletteKey::Up
    } else if str_eq(key, "Enter") {
        PaletteKey::Enter
    } else {
        PaletteKey::Other
    }
}

/// What a key press picked for the host to carry out.
#[derive(Debug, Clone, Copy, PartialEq, Eq, Structural)]
pub enum PalettePick {
    Nothing,
    /// The locale at this position of the filtered language list.
    Locale(usize),
    /// The entry at this position of the listing (history entry or command).
    Entry(usize),
}

/// What running a command asks the host to do.
#[derive(Debug, Clone, Copy, PartialEq, Eq, Structural)]
pub enum CommandEffect {
    /// Show this section, as the sidebar item does.
    ShowSection(AppSection),
    /// Switch to this theme.
    SetTheme(Theme),
    /// The list now shows the languages.
    PickLanguage,
}

pub open spec fn command_effect(c: PaletteCommand, theme: Theme) -> CommandEffect {
    match c {
        PaletteCommand::Repos => CommandEffect::ShowSection(AppSection::Repos),
        PaletteCommand::Connect => CommandEffect::ShowSection(AppSection::Connect),
        PaletteCommand::Keys => CommandEffect::ShowSection(AppSection::Keys),
        PaletteCommand::ToggleTheme => CommandEffect::SetTheme(theme_next(theme)),
        PaletteCommand::ChangeLanguage => CommandEffect::PickLanguage,
    }
}

/// The palette's own state: whether it is open, whether it lists languages
/// instead of commands, the keyboard selection and the search text.
pub struct PaletteState {
    pub open: bool,
    pub language_mode: bool,
    pub selected: usize,
    pub query: String,
}

impl PaletteState {
    /// A closed palette.
    pub fn closed() -> (s: Self)
        ensures
            !s.open,
            !s.language_mode,
            s.selected == 0,
            s.query@.len() == 0,
    {
        PaletteState { open: false, language_mode: false, selected: 0, query: String::new() }
    }

    /// Opening resets the search, the selection and the language mode.
    pub fn open(&mut self)
        ensures
            final(self).open,
            !final(self).language_mode,
            final(self).selected == 0,
            final(self).query@.len() == 0,
    {
        self.open = true;
        self.language_mode = false;
        self.selected = 0;
        self.query = String::new();
    }

    /// Closing from outside (a click on the backdrop).
    pub fn close(&mut self)
        ensures
            !final(self).open,
            final(self).language_mode == old(self).language_mode,
            final(self).selected == old(self).selected,
            final(self).query == old(self).query,
    {
        self.open = false;
    }

    /// Typing replaces the search and selects the first row.
    pub fn input(&mut self, text: String)
        ensures
            final(self).query == text,
            final(self).selected == 0,
            final(self).open == old(self).open,
            final(self).language_mode == old(self).language_mode,
    {
        self.query = text;
        self.selected = 0;
    }

    /// Hovering a row selects it.
    pub fn hover(&mut self, index: usize)
        ensures
            final(self).selected == index,
            final(self).open == old(self).open,
            final(self).language_mode == old(self).language_mode,
            final(self).query == old(self).query,
    {
        self.selected = index;
    }

    /// A key press while the list showing has `list_len` rows. A closed
    /// palette ignores keys. Escape leaves language mode (clearing the
    /// search), or else closes; the arrows move the selection within the list;
    /// Enter picks the selected row when there is one, and picking a language
    /// also leaves language mode and closes.
    pub fn key(&mut self, key: PaletteKey, list_len: usize) -> (r: PalettePick)
        ensures
            !old(self).open ==> r == PalettePick::Nothing && *final(self) == *old(self),
            old(self).open && key == PaletteKey::Escape ==> r == PalettePick::Nothing && (if old(self).language_mode {
                final(self).open && !final(self).language_mode && final(self).selected == 0
                    && final(self).query@.len() == 0
            } else {
                !final(self).open && final(self).language_mode == old(self).language_mode
                    && final(self).selected == old(self).selected && final(self).query == old(self).query
            }),
            old(self).open && key == PaletteKey::Down ==> r == PalettePick::Nothing && final(self).open
                && final(self).language_mode == old(self).language_mode && final(self).query == old(self).query
                && final(self).selected == (if list_len == 0 {
                old(self).selected as int
            } else if old(self).selected + 1 < list_len - 1 {
                old(self).selected + 1
            } else {
                list_len - 1
            }),
            old(self).open && key == PaletteKey::Up ==> r == PalettePick::Nothing && final(self).open
                && final(self).language_mode == old(self).language_mode && final(self).query == old(self).query
                && final(self).selected == (if old(self).selected == 0 {
                0
            } else {
                old(self).selected - 1
            }),
            old(self).open && key == PaletteKey::Enter && old(self).language_mode ==> (if old(self).selected
                < list_len {
                r == PalettePick::Locale(old(self).selected) && !final(self).open && !final(self).language_mode
                    && final(self).selected == 0 && final(self).query@.len() == 0
            } else {
                r == PalettePick::Nothing && *final(self) == *old(self)
            }),
            old(self).open && key == PaletteKey::Enter && !old(self).language_mode ==> (if old(self).selected
                < list_len {
                r == PalettePick::Entry(old(self).selected)
            } else {
                r == PalettePick::Nothing
            }) && *final(self) == *old(self),
            old(self).open && key == PaletteKey::Other ==> r == PalettePick::Nothing && *final(self) == *old(self),
    {
        if !self.open {
            return PalettePick::Nothing;
        }
        match key {
            PaletteKey::Escape => {
                if self.language_mode {
                    self.language_mode = false;
                    self.query = String::new();
                    self.selected = 0;
                } else {
                    self.open = false;
                }
                PalettePick::Nothing
            },
            PaletteKey::Down => {
                if list_len > 0 {
                    self.selected = if self.selected < list_len - 1 && self.selected + 1 < list_len - 1 {
                        self.selected + 1
                    } else {
                        list_len - 1
                    };
                }
                PalettePick::Nothing
            },
            PaletteKey::Up => {
                if self.selected > 0 {
                    self.selected = self.selected - 1;
                }
                PalettePick::Nothing
            },
            PaletteKey::Enter => {
                let idx = self.selected;
                if idx < list_len {
                    if self.language_mode {
                        self.language_mode = false;
                        self.query = String::new();
                        self.selected = 0;
                        self.open = false;
                        PalettePick::Locale(idx)
                    } else {
                        PalettePick::Entry(idx)
                    }
                } else {
                    PalettePick::Nothing
                }
            },
            PaletteKey::Other => PalettePick::Nothing,
        }
    }

    /// Picking a language with the mouse: leave language mode and close.
    pub fn locale_clicked(&mut self)
        ensures
            !final(self).open,
            !final(self).language_mode,
            final(self).selected == 0,
            final(self).query@.len() == 0,
    {
        self.language_mode = false;
        self.query = String::new();
        self.selected = 0;
        self.open = false;
    }

    /// Choosing a history entry searches for it again.
    pub fn use_history_entry(&mut self, entry: &str)
        ensures
            final(self).query@ == entry@,
            final(self).open == old(self).open,
            final(self).language_mode == old(self).language_mode,
            final(self).selected == old(self).selected,
    {
        self.query = String::from_str(entry);
    }

    /// Running a command. A navigation command shows its section and closes
    /// the palette; the theme command switches to the next theme and closes;
    /// the language command switches the list to languages with a cleared
    /// search.
    pub fn run_command(&mut self, command: PaletteCommand, theme: Theme) -> (r: CommandEffect)
        ensures
            r == command_effect(command, theme),
            command == PaletteCommand::ChangeLanguage ==> final(self).open == old(self).open
                && final(self).language_mode && final(self).selected == 0 && final(self).query@.len() == 0,
            command != PaletteCommand::ChangeLanguage ==> !final(self).open
                && final(self).language_mode == old(self).language_mode
                && final(self).selected == old(self).selected && final(self).query == old(self).query,
    {
        match command {
            PaletteCommand::Repos => {
                self.open = false;
                CommandEffect::ShowSection(AppSection::Repos)
            },
            PaletteCommand::Connect => {
                self.open = false;
                CommandEffect::ShowSection(AppSection::Connect)
            },
            PaletteCommand::Keys => {
                self.open = false;
                CommandEffect::ShowSection(AppSection::Keys)
            },
            PaletteCommand::ToggleTheme => {
                self.open = false;
                CommandEffect::SetTheme(theme.next())
            },
            PaletteCommand::ChangeLanguage => {
                self.language_mode = true;
                self.query = String::new();
                self.selected = 0;
                CommandEffect::PickLanguage
            },
        }
    }

    /// String-table key of the search box's placeholder.
    pub fn placeholder_key(&self) -> (r: &'static str)
        ensures
            self.language_mode ==> r@ == "settings.language_search_placeholder"@,
            !self.language_mode ==> r@ == "palette.placeholder"@,
    {
        if self.language_mode {
            "settings.language_search_placeholder"
        } else {
            "palette.placeholder"
        }
    }
}

// ---------------------------------------------------------------------------
// Laws
// ---------------------------------------------------------------------------

proof fn lemma_without_props(h: Seq<Seq<char>>, key: Seq<char>)
    ensures
        without(h, key).len() <= h.len(),
        !without(h, key).contains(key),
        forall|x: Seq<char>| #[trigger] without(h, key).contains(x) <==> (h.contains(x) && x != key),
    decreases h.len(),
{
    if h.len() > 0 {
        let p = h.drop_last();
        lemma_without_props(p, key);
        let r = without(p, key);
        assert forall|x: Seq<char>| #[trigger] without(h, key).contains(x) <==> (h.contains(x) && x != key) by {
            if h.contains(x) && x != key {
                let k = choose|k: int| 0 <= k < h.len() && h[k] == x;
                if k < h.len() - 1 {
                    assert(p[k] == x);
                    assert(p.contains(x));
                    assert(r.contains(x));
                    let m = choose|m: int| 0 <= m < r.len() && r[m] == x;
                    if h.last() != key {
                        assert(r.push(h.last())[m] == x);
                    }
                } else {
                    assert(r.push(h.last())[r.len() as int] == x);
                }
            }
            if without(h, key).contains(x) {
                let k = choose|k: int| 0 <= k < without(h, key).len() && without(h, key)[k] == x;
                if k < r.len() {
                    assert(r[k] == x);
                    assert(r.contains(x));
                    let m = choose|m: int| 0 <= m < p.len() && p[m] == x;
                    assert(h[m] == x);
                } else {
                    assert(h[h.len() - 1] == x);
                }
            }
        }
    }
}

proof fn lemma_without_of_free(h: Seq<Seq<char>>, key: Seq<char>)
    requires
        !h.contains(key),
    ensures
        without(h, key) == h,
    decreases h.len(),
{
    if h.len() > 0 {
        let p = h.drop_last();
        assert(!p.contains(key)) by {
            if p.contains(key) {
                let k = choose|k: int| 0 <= k < p.len() && p[k] == key;
                assert(h[k] == key);
            }
        }
        lemma_without_of_free(p, key);
        assert(h.last() != key) by {
            assert(h[h.len() - 1] == h.last());
        }
        assert(h =~= p.push(h.last()));
    }
}

proof fn lemma_without_front(x: Seq<char>, rest: Seq<Seq<char>>, key: Seq<char>)
    requires
        x == key,
    ensures
        without(seq![x] + rest, key) == without(rest, key),
    decreases rest.len(),
{
    let whole = seq![x] + rest;
    if rest.len() == 0 {
        assert(whole.drop_last() =~= Seq::<Seq<char>>::empty());
        assert(without(Seq::<Seq<char>>::empty(), key) == Seq::<Seq<char>>::empty());
        assert(whole.last() == key);
        assert(without(whole, key) == without(whole.drop_last(), key));
    } else {
        assert(whole.drop_last() =~= seq![x] + rest.drop_last());
        lemma_without_front(x, rest.drop_last(), key);
        assert(whole.last() == rest.last());
        assert(without(whole, key) == (if whole.last() == key {
            without(whole.drop_last(), key)
        } else {
            without(whole.drop_last(), key).push(whole.last())
        }));
        assert(without(rest, key) == (if rest.last() == key {
            without(rest.drop_last(), key)
        } else {
            without(rest.drop_last(), key).push(rest.last())
        }));
    }
}

/// After a search is recorded, it is the newest entry, it occurs once, the
/// history holds at most `HISTORY_LIMIT` entries, and every other entry was
/// already there.
pub proof fn law_record_puts_search_first(h: Seq<Seq<char>>, key: Seq<char>)
    ensures
        recorded(h, key).len() >= 1,
        recorded(h, key)[0] == key,
        recorded(h, key).len() <= 10,
        forall|i: int| 1 <= i < recorded(h, key).len() ==> #[trigger] recorded(h, key)[i] != key && h.contains(
            recorded(h, key)[i],
        ),
{
    lemma_without_props(h, key);
    let w = without(h, key);
    let full = seq![key] + w;
    assert forall|i: int| 1 <= i < recorded(h, key).len() implies #[trigger] recorded(h, key)[i] != key
        && h.contains(recorded(h, key)[i]) by {
        assert(recorded(h, key)[i] == full[i]);
        assert(full[i] == w[i - 1]);
        assert(w.contains(w[i - 1]));
    }
}

/// Recording the same search twice in a row leaves the history as after the
/// first time.
pub proof fn law_record_idempotent(h: Seq<Seq<char>>, key: Seq<char>)
    ensures
        recorded(recorded(h, key), key) == recorded(h, key),
{
    lemma_without_props(h, key);
    let w = without(h, key);
    let r = recorded(h, key);
    let m: int = if w.len() <= 9 { w.len() as int } else { 9 };
    let tail = w.take(m);
    assert(r =~= seq![key] + tail);
    assert(!tail.contains(key)) by {
        if tail.contains(key) {
            let k = choose|k: int| 0 <= k < tail.len() && tail[k] == key;
            assert(w[k] == key);
            assert(w.contains(key));
        }
    }
    lemma_without_front(key, tail, key);
    lemma_without_of_free(tail, key);
    assert(recorded(r, key) =~= seq![key] + tail);
}


/// Each sidebar section has a palette command that shows it, labelled like
/// its sidebar item.
pub proof fn law_navigation_commands_match_sidebar(section: AppSection, theme: Theme)
    ensures
        exists|c: PaletteCommand|
            command_effect(c, theme) == CommandEffect::ShowSection(section) && #[trigger] command_label_key(c)
                == section_label_key(section),
{
    let c = match section {
        AppSection::Repos => PaletteCommand::Repos,
        AppSection::Connect => PaletteCommand::Connect,
        AppSection::Keys => PaletteCommand::Keys,
    };
    assert(command_effect(c, theme) == CommandEffect::ShowSection(section));
    assert(command_label_key(c) == section_label_key(section));
}

} // verus!
