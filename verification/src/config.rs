//! The settings file: the settings and their defaults, the text of a new
//! settings file, and the update of an existing file in place through
//! `toml_edit` (its comments kept when the settings' keys hold plain
//! values).

use vstd::prelude::*;
use vstd::string::{StrSliceExecFns, StringExecFns};
use crate::text::{decimal, push_decimal};

verus! {

/// The settings a settings file holds.
pub struct Config {
    pub theme: String,
    pub speed: u64,
    pub background: bool,
    pub order: String,
    pub loop_playback: bool,
    pub ignore_patterns: Vec<String>,
    pub speed_rules: Vec<String>,
}

/// Mathematical form of the settings.
pub struct ConfigView {
    pub theme: Seq<char>,
    pub speed: u64,
    pub background: bool,
    pub order: Seq<char>,
    pub loop_playback: bool,
    pub ignore_patterns: Seq<Seq<char>>,
    pub speed_rules: Seq<Seq<char>>,
}

/// Views of a sequence of strings.
pub open spec fn strings_view(v: Seq<String>) -> Seq<Seq<char>> {
    v.map_values(|s: String| s@)
}

impl View for Config {
    type V = ConfigView;

    open spec fn view(&self) -> ConfigView {
        ConfigView {
            theme: self.theme@,
            speed: self.speed,
            background: self.background,
            order: self.order@,
            loop_playback: self.loop_playback,
            ignore_patterns: strings_view(self.ignore_patterns@),
            speed_rules: strings_view(self.speed_rules@),
        }
    }
}

/// The settings used where the file says nothing: the `tokyo-night` theme,
/// 30 ms per character, background shown, random order, no looping, no
/// ignore patterns, no speed rules.
pub open spec fn default_config() -> ConfigView {
    ConfigView {
        theme: "tokyo-night"@,
        speed: 30,
        background: true,
        order: "random"@,
        loop_playback: false,
        ignore_patterns: Seq::empty(),
        speed_rules: Seq::empty(),
    }
}

/// The default theme's name.
pub fn default_theme() -> (s: String)
    ensures
        s@ == default_config().theme,
{
    String::from_str("tokyo-night")
}

/// The default typing speed, in milliseconds per character.
pub fn default_speed() -> (n: u64)
    ensures
        n == default_config().speed,
{
    30
}

/// Backgrounds are shown by default.
pub fn default_background() -> (b: bool)
    ensures
        b == default_config().background,
{
    true
}

/// The default playback order's name.
pub fn default_order() -> (s: String)
    ensures
        s@ == default_config().order,
{
    String::from_str("random")
}

/// Playback does not loop by default.
pub fn default_loop() -> (b: bool)
    ensures
        b == default_config().loop_playback,
{
    false
}

/// No ignore patterns by default.
pub fn default_ignore_patterns() -> (v: Vec<String>)
    ensures
        strings_view(v@) == default_config().ignore_patterns,
{
    let v: Vec<String> = Vec::new();
    assert(strings_view(v@) =~= Seq::<Seq<char>>::empty());
    v
}

impl Default for Config {
    fn default() -> (c: Self)
        ensures
            c@ == default_config(),
    {
        let speed_rules: Vec<String> = Vec::new();
        assert(strings_view(speed_rules@) =~= Seq::<Seq<char>>::empty());
        Config {
            theme: default_theme(),
            speed: default_speed(),
            background: default_background(),
            order: default_order(),
            loop_playback: default_loop(),
            ignore_patterns: default_ignore_patterns(),
            speed_rules,
        }
    }
}

/// `true` or `false`, as TOML writes them.
pub open spec fn bool_text(b: bool) -> Seq<char> {
    if b {
        "true"@
    } else {
        "false"@
    }
}

/// A string between double quotes (written as is, without escaping).
pub open spec fn quoted(s: Seq<char>) -> Seq<char> {
    "\""@ + s + "\""@
}

/// The quoted items separated by `", "`.
pub open spec fn quoted_items(items: Seq<Seq<char>>) -> Seq<char>
    decreases items.len(),
{
    if items.len() == 0 {
        Seq::empty()
    } else if items.len() == 1 {
        quoted(items[0])
    } else {
        quoted_items(items.drop_last()) + ", "@ + quoted(items.last())
    }
}

/// A list of strings as the new settings file writes it: `[]`, or
/// `["a", "b"]`.
pub open spec fn list_text(items: Seq<Seq<char>>) -> Seq<char> {
    "["@ + quoted_items(items) + "]"@
}

/// The text of a new settings file: every setting with a comment saying
/// what it does.
pub open spec fn config_file_text(c: ConfigView) -> Seq<char> {
    "# gitlogue configuration file\n# All settings are optional and will use defaults if not specified\n\n# Theme to use for syntax highlighting\ntheme = \""@
        + c.theme + "\"\n\n# Typing speed in milliseconds per character\nspeed = "@ + decimal(c.speed as nat)
        + "\n\n# Show background colors (set to false for transparent background)\nbackground = "@
        + bool_text(c.background) + "\n\n# Commit playback order: random, asc, or desc\norder = \""@ + c.order
        + "\"\n\n# Loop the animation continuously\nloop = "@ + bool_text(c.loop_playback)
        + "\n\n# Ignore patterns (gitignore syntax)\n# Examples: [\"*.png\", \"*.ipynb\", \"dist/**\"]\nignore_patterns = "@
        + list_text(c.ignore_patterns)
        + "\n\n# Speed rules for different file types (pattern:milliseconds)\n# Examples: [\"*.java:50\", \"*.xml:5\", \"*.rs:30\"]\nspeed_rules = "@
        + list_text(c.speed_rules) + "\n"@
}

fn push_bool(s: &mut String, b: bool)
    ensures
        final(s)@ == old(s)@ + bool_text(b),
{
    proof {
        reveal_strlit("true");
        reveal_strlit("false");
    }
    if b {
        s.append("true");
    } else {
        s.append("false");
    }
}

/// Appends `list_text(items)`.
pub fn push_list(s: &mut String, items: &Vec<String>)
    ensures
        final(s)@ == old(s)@ + list_text(strings_view(items@)),
{
    proof {
        reveal_strlit("[");
        reveal_strlit("]");
        reveal_strlit("\"");
        reveal_strlit(", ");
    }
    let ghost start = old(s)@;
    let ghost all = strings_view(items@);
    s.append("[");
    let mut i: usize = 0;
    while i < items.len()
        invariant
            i <= items@.len(),
            all == strings_view(items@),
            s@ == start + "["@ + quoted_items(all.take(i as int)),
        decreases items@.len() - i,
    {
        let ghost before = s@;
        proof {
            assert(all.take(i + 1).drop_last() =~= all.take(i as int));
            assert(all.take(i + 1).last() == items@[i as int]@);
        }
        if i > 0 {
            s.append(", ");
        }
        s.append("\"");
        s.append(items[i].as_str());
        s.append("\"");
        proof {
            if i > 0 {
                assert(s@ =~= before + ", "@ + quoted(items@[i as int]@));
            } else {
                assert(s@ =~= before + quoted(items@[i as int]@));
            }
        }
        i += 1;
    }
    assert(all.take(items@.len() as int) =~= all);
    s.append("]");
}

impl Config {
    /// The text of a new settings file for these settings (see
    /// `config_file_text`).
    pub fn file_text(&self) -> (r: String)
        ensures
            r@ == config_file_text(self@),
    {
        let mut s = String::from_str(
            "# gitlogue configuration file\n# All settings are optional and will use defaults if not specified\n\n# Theme to use for syntax highlighting\ntheme = \"",
        );
        s.append(self.theme.as_str());
        s.append("\"\n\n# Typing speed in milliseconds per character\nspeed = ");
        push_decimal(&mut s, self.speed);
        s.append("\n\n# Show background colors (set to false for transparent background)\nbackground = ");
        push_bool(&mut s, self.background);
        s.append("\n\n# Commit playback order: random, asc, or desc\norder = \"");
        s.append(self.order.as_str());
        s.append("\"\n\n# Loop the animation continuously\nloop = ");
        push_bool(&mut s, self.loop_playback);
        s.append(
            "\n\n# Ignore patterns (gitignore syntax)\n# Examples: [\"*.png\", \"*.ipynb\", \"dist/**\"]\nignore_patterns = ",
        );
        push_list(&mut s, &self.ignore_patterns);
        s.append(
            "\n\n# Speed rules for different file types (pattern:milliseconds)\n# Examples: [\"*.java:50\", \"*.xml:5\", \"*.rs:30\"]\nspeed_rules = ",
        );
        push_list(&mut s, &self.speed_rules);
        s.append("\n");
        assert(s@ =~= config_file_text(self@));
        s
    }
}

/// A TOML document that keeps the comments and layout of its text
/// (`toml_edit::DocumentMut`).
#[verifier::external_type_specification]
#[verifier::external_body]
pub struct ExDocumentMut(toml_edit::DocumentMut);

/// A TOML syntax error (`toml_edit::TomlError`).
#[verifier::external_type_specification]
#[verifier::external_body]
pub struct ExTomlError(toml_edit::TomlError);

/// A setting's value as the settings file stores it.
pub enum SettingValue {
    Text(String),
    Integer(i64),
    Flag(bool),
    TextList(Vec<String>),
}

/// Mathematical form of a top-level entry of a settings document; `Other`
/// stands for entries of any other kind (tables, dates, ...).
pub enum SettingView {
    Text(Seq<char>),
    Integer(i64),
    Flag(bool),
    TextList(Seq<Seq<char>>),
    Other,
}

impl View for SettingValue {
    type V = SettingView;

    open spec fn view(&self) -> SettingView {
        match self {
            SettingValue::Text(s) => SettingView::Text(s@),
            SettingValue::Integer(n) => SettingView::Integer(*n),
            SettingValue::Flag(b) => SettingView::Flag(*b),
            SettingValue::TextList(v) => SettingView::TextList(strings_view(v@)),
        }
    }
}

/// Whether `toml_edit` parses a text as a TOML document.
pub uninterp spec fn toml_document_parses(text: Seq<char>) -> bool;

/// The top-level entries `toml_edit` parses from a text, by key.
pub uninterp spec fn parsed_entries(text: Seq<char>) -> Map<Seq<char>, SettingView>;

/// The comments `toml_edit` keeps around the keys and tables of the
/// document it parses from a text, and in its trailing text (not those
/// inside values), in order.
pub uninterp spec fn parsed_comments(text: Seq<char>) -> Seq<Seq<char>>;

/// The comments around a document's keys and tables and in its trailing
/// text (not those inside values), in order.
pub uninterp spec fn document_comments(doc: toml_edit::DocumentMut) -> Seq<Seq<char>>;

/// The top-level entries of a document, by key.
pub uninterp spec fn document_entries(doc: toml_edit::DocumentMut) -> Map<Seq<char>, SettingView>;

/// Parses a text into an editable document with `toml_edit`
/// (`DocumentMut`'s `FromStr`). The contract claims that the parse
/// succeeds exactly when `toml_document_parses` holds of the text, and
/// that the document's entries are `parsed_entries` of the text (a
/// function of the text alone).
#[verifier::external_body]
fn parse_document(text: &str) -> (r: Result<toml_edit::DocumentMut, toml_edit::TomlError>)
    ensures
        r is Ok <==> toml_document_parses(text@),
        r matches Ok(d) ==> document_entries(d) == parsed_entries(text@) && document_comments(d) == parsed_comments(
            text@,
        ),
{
    text.parse::<toml_edit::DocumentMut>()
}

/// Sets a top-level entry of a document: `doc[key] = toml_edit::value(..)`
/// (the document's root table gets the entry, replacing any entry of that
/// key). The contract claims that the entry of `key` becomes the value and
/// that the other entries stay; and that the comments around keys and
/// tables stay when the replaced entry was a plain value (the key, with
/// its comments, is kept; only the value's own decoration is replaced) or
/// there was none. Replacing a table drops the comments around it, and
/// that case is not stated.
#[verifier::external_body]
fn set_document_entry(doc: &mut toml_edit::DocumentMut, key: &str, value: &SettingValue)
    ensures
        document_entries(*final(doc)) == document_entries(*old(doc)).insert(key@, value@),
        plain_or_absent(document_entries(*old(doc)), key@) ==> document_comments(*final(doc))
            == document_comments(*old(doc)),
{
    doc[key] = match value {
        SettingValue::Text(s) => toml_edit::value(s.as_str()),
        SettingValue::Integer(n) => toml_edit::value(*n),
        SettingValue::Flag(b) => toml_edit::value(*b),
        SettingValue::TextList(v) => toml_edit::value(v.iter().map(|p| p.as_str()).collect::<toml_edit::Array>()),
    };
}

/// Renders a document as text with `toml_edit` (its `Display`): the
/// parsed text with its comments and layout, and the entries set since.
/// The contract claims `toml_edit`'s format-preserving round trip: the
/// text parses again, to the document's entries and with its comments.
/// Its layout is not stated.
#[verifier::external_body]
fn document_text(doc: &toml_edit::DocumentMut) -> (s: String)
    ensures
        toml_document_parses(s@),
        parsed_entries(s@) == document_entries(*doc),
        parsed_comments(s@) == document_comments(*doc),
{
    doc.to_string()
}

/// The entry of `key` is absent or a value of a kind the settings use.
pub open spec fn plain_or_absent(e: Map<Seq<char>, SettingView>, key: Seq<char>) -> bool {
    !e.dom().contains(key) || !(e[key] is Other)
}

/// None of the settings' keys holds an entry of another kind (such as a
/// table), so writing the settings keeps the file's comments.
pub open spec fn settings_plain(e: Map<Seq<char>, SettingView>) -> bool {
    forall|k: Seq<char>| #[trigger] setting_keys().contains(k) ==> plain_or_absent(e, k)
}

/// Why the settings file could not be handled; each carries the path.
#[derive(Debug, PartialEq, Eq)]
pub enum ConfigError {
    /// There is no home directory.
    NoHome,
    CreateConfigDir(String),
    CreateThemesDir(String),
    Read(String),
    Parse(String),
    Write(String),
}

impl ConfigError {
    /// The error's message.
    pub fn message(&self) -> (m: String)
        ensures
            m@ == match self {
                ConfigError::NoHome => "Failed to determine home directory"@,
                ConfigError::CreateConfigDir(p) => "Failed to create config directory: "@ + p@,
                ConfigError::CreateThemesDir(p) => "Failed to create themes directory: "@ + p@,
                ConfigError::Read(p) => "Failed to read config file: "@ + p@,
                ConfigError::Parse(p) => "Failed to parse config file: "@ + p@,
                ConfigError::Write(p) => "Failed to write config file: "@ + p@,
            },
    {
        let (mut m, p) = match self {
            ConfigError::NoHome => (String::from_str("Failed to determine home directory"), ""),
            ConfigError::CreateConfigDir(p) => (String::from_str("Failed to create config directory: "), p.as_str()),
            ConfigError::CreateThemesDir(p) => (String::from_str("Failed to create themes directory: "), p.as_str()),
            ConfigError::Read(p) => (String::from_str("Failed to read config file: "), p.as_str()),
            ConfigError::Parse(p) => (String::from_str("Failed to parse config file: "), p.as_str()),
            ConfigError::Write(p) => (String::from_str("Failed to write config file: "), p.as_str()),
        };
        proof {
            reveal_strlit("");
        }
        m.append(p);
        m
    }
}

/// The entries after writing the settings `c` into a document with
/// entries `e`: `theme`, `speed`, `background`, `order`, `loop`,
/// `ignore_patterns` and `speed_rules`.
pub open spec fn entries_with(e: Map<Seq<char>, SettingView>, c: ConfigView) -> Map<Seq<char>, SettingView> {
    e.insert("theme"@, SettingView::Text(c.theme))
        .insert("speed"@, SettingView::Integer(c.speed as i64))
        .insert("background"@, SettingView::Flag(c.background))
        .insert("order"@, SettingView::Text(c.order))
        .insert("loop"@, SettingView::Flag(c.loop_playback))
        .insert("ignore_patterns"@, SettingView::TextList(c.ignore_patterns))
        .insert("speed_rules"@, SettingView::TextList(c.speed_rules))
}

/// Writing settings into a document and reading them back gives the
/// settings: each of the seven keys holds the setting written, and every
/// other entry is the one the document had.
pub proof fn lemma_written_settings_read_back(e: Map<Seq<char>, SettingView>, c: ConfigView, key: Seq<char>)
    ensures
        entries_with(e, c)["theme"@] == SettingView::Text(c.theme),
        entries_with(e, c)["speed"@] == SettingView::Integer(c.speed as i64),
        entries_with(e, c)["background"@] == SettingView::Flag(c.background),
        entries_with(e, c)["order"@] == SettingView::Text(c.order),
        entries_with(e, c)["loop"@] == SettingView::Flag(c.loop_playback),
        entries_with(e, c)["ignore_patterns"@] == SettingView::TextList(c.ignore_patterns),
        entries_with(e, c)["speed_rules"@] == SettingView::TextList(c.speed_rules),
        !setting_keys().contains(key) ==> entries_with(e, c).dom().contains(key) == e.dom().contains(key)
            && (e.dom().contains(key) ==> entries_with(e, c)[key] == e[key]),
{
    reveal_strlit("theme");
    reveal_strlit("speed");
    reveal_strlit("background");
    reveal_strlit("order");
    reveal_strlit("loop");
    reveal_strlit("ignore_patterns");
    reveal_strlit("speed_rules");
    assert("theme"@.len() == 5 && "theme"@[0] == 't');
    assert("speed"@.len() == 5 && "speed"@[0] == 's');
    assert("background"@.len() == 10 && "background"@[0] == 'b');
    assert("order"@.len() == 5 && "order"@[0] == 'o');
    assert("loop"@.len() == 4 && "loop"@[0] == 'l');
    assert("ignore_patterns"@.len() == 15 && "ignore_patterns"@[0] == 'i');
    assert("speed_rules"@.len() == 11 && "speed_rules"@[0] == 's');
}

proof fn lemma_setting_keys_distinct()
    ensures
        "theme"@ != "speed"@, "theme"@ != "background"@, "theme"@ != "order"@, "theme"@ != "loop"@,
        "theme"@ != "ignore_patterns"@, "theme"@ != "speed_rules"@, "speed"@ != "background"@,
        "speed"@ != "order"@, "speed"@ != "loop"@, "speed"@ != "ignore_patterns"@, "speed"@ != "speed_rules"@,
        "background"@ != "order"@, "background"@ != "loop"@, "background"@ != "ignore_patterns"@,
        "background"@ != "speed_rules"@, "order"@ != "loop"@, "order"@ != "ignore_patterns"@,
        "order"@ != "speed_rules"@, "loop"@ != "ignore_patterns"@, "loop"@ != "speed_rules"@,
        "ignore_patterns"@ != "speed_rules"@,
{
    reveal_strlit("theme");
    reveal_strlit("speed");
    reveal_strlit("background");
    reveal_strlit("order");
    reveal_strlit("loop");
    reveal_strlit("ignore_patterns");
    reveal_strlit("speed_rules");
    assert("theme"@.len() == 5 && "theme"@[0] == 't');
    assert("speed"@.len() == 5 && "speed"@[0] == 's');
    assert("background"@.len() == 10 && "background"@[0] == 'b');
    assert("order"@.len() == 5 && "order"@[0] == 'o');
    assert("loop"@.len() == 4 && "loop"@[0] == 'l');
    assert("ignore_patterns"@.len() == 15 && "ignore_patterns"@[0] == 'i');
    assert("speed_rules"@.len() == 11 && "speed_rules"@[0] == 's');
}

/// The keys the settings are written under.
pub open spec fn setting_keys() -> Set<Seq<char>> {
    set!["theme"@, "speed"@, "background"@, "order"@, "loop"@, "ignore_patterns"@, "speed_rules"@]
}

/// Saving over an existing settings file and reading the result back
/// gives the saved settings, and keeps the file's other entries.
pub proof fn lemma_saved_file_reads_back(old_text: Seq<char>, new_text: Seq<char>, c: ConfigView, key: Seq<char>)
    requires
        parsed_entries(new_text) == entries_with(parsed_entries(old_text), c),
    ensures
        parsed_entries(new_text)["theme"@] == SettingView::Text(c.theme),
        parsed_entries(new_text)["speed"@] == SettingView::Integer(c.speed as i64),
        parsed_entries(new_text)["background"@] == SettingView::Flag(c.background),
        parsed_entries(new_text)["order"@] == SettingView::Text(c.order),
        parsed_entries(new_text)["loop"@] == SettingView::Flag(c.loop_playback),
        parsed_entries(new_text)["ignore_patterns"@] == SettingView::TextList(c.ignore_patterns),
        parsed_entries(new_text)["speed_rules"@] == SettingView::TextList(c.speed_rules),
        !setting_keys().contains(key) ==> parsed_entries(new_text).dom().contains(key)
            == parsed_entries(old_text).dom().contains(key) && (parsed_entries(old_text).dom().contains(key)
            ==> parsed_entries(new_text)[key] == parsed_entries(old_text)[key]),
{
    lemma_written_settings_read_back(parsed_entries(old_text), c, key);
}

/// A copy of a list of strings.
pub fn copy_strings(v: &Vec<String>) -> (r: Vec<String>)
    ensures
        strings_view(r@) == strings_view(v@),
{
    let mut r: Vec<String> = Vec::new();
    let mut i: usize = 0;
    while i < v.len()
        invariant
            i <= v@.len(),
            strings_view(r@) == strings_view(v@).take(i as int),
        decreases v@.len() - i,
    {
        let c = v[i].clone();
        assert(c@ == v@[i as int]@);
        let ghost before = r@;
        r.push(c);
        assert(strings_view(r@) =~= strings_view(before).push(c@));
        assert(strings_view(r@) =~= strings_view(v@).take(i + 1));
        i += 1;
    }
    assert(strings_view(v@).take(v@.len() as int) =~= strings_view(v@));
    r
}

impl Config {
    /// Writes the settings into a parsed settings document (see
    /// `entries_with`); the other entries stay, and so do the comments when
    /// the settings' keys hold plain values (see `settings_plain`).
    pub fn apply_to_document(&self, doc: &mut toml_edit::DocumentMut)
        ensures
            document_entries(*final(doc)) == entries_with(document_entries(*old(doc)), self@),
            settings_plain(document_entries(*old(doc))) ==> document_comments(*final(doc)) == document_comments(
                *old(doc),
            ),
    {
        let ghost e0 = document_entries(*doc);
        proof {
            lemma_setting_keys_distinct();
            if settings_plain(e0) {
                assert(setting_keys().contains("theme"@));
                assert(setting_keys().contains("speed"@));
                assert(setting_keys().contains("background"@));
                assert(setting_keys().contains("order"@));
                assert(setting_keys().contains("loop"@));
                assert(setting_keys().contains("ignore_patterns"@));
                assert(setting_keys().contains("speed_rules"@));
            }
        }
        set_document_entry(doc, "theme", &SettingValue::Text(self.theme.clone()));
        set_document_entry(doc, "speed", &SettingValue::Integer(self.speed as i64));
        set_document_entry(doc, "background", &SettingValue::Flag(self.background));
        set_document_entry(doc, "order", &SettingValue::Text(self.order.clone()));
        set_document_entry(doc, "loop", &SettingValue::Flag(self.loop_playback));
        set_document_entry(doc, "ignore_patterns", &SettingValue::TextList(copy_strings(&self.ignore_patterns)));
        set_document_entry(doc, "speed_rules", &SettingValue::TextList(copy_strings(&self.speed_rules)));
    }

    /// The new text of the settings file at `path`: the existing text with
    /// the settings written into it (its other entries kept: the new text
    /// parses to the old entries with the seven settings written, see
    /// `entries_with`; its comments kept when the settings' keys held plain
    /// values, see `settings_plain`), or the commented text
    /// of a new file when there is none; an existing text that is not TOML
    /// is a parse error.
    pub fn save_text(&self, existing: Option<&str>, path: &str) -> (r: Result<String, ConfigError>)
        ensures
            match existing {
                None => r matches Ok(t) && t@ == config_file_text(self@),
                Some(text) => match r {
                    Ok(t) => toml_document_parses(text@) && toml_document_parses(t@) && parsed_entries(t@)
                        == entries_with(parsed_entries(text@), self@) && (settings_plain(parsed_entries(text@))
                        ==> parsed_comments(t@) == parsed_comments(text@)),
                    Err(e) => !toml_document_parses(text@) && (e matches ConfigError::Parse(p) && p@ == path@),
                },
            },
    {
        match existing {
            None => Ok(self.file_text()),
            Some(text) => match parse_document(text) {
                Ok(mut doc) => {
                    self.apply_to_document(&mut doc);
                    Ok(document_text(&doc))
                },
                Err(_) => Err(ConfigError::Parse(String::from_str(path))),
            },
        }
    }
}

/// `base` joined with the relative path `part`, as `PathBuf::push` does:
/// a `/` between them unless `base` is empty or already ends with one.
pub open spec fn path_joined(base: Seq<char>, part: Seq<char>) -> Seq<char> {
    if base.len() == 0 || base.last() == '/' {
        base + part
    } else {
        base + "/"@ + part
    }
}

/// `path_joined` computed.
pub fn join_path(base: &str, part: &str) -> (r: String)
    ensures
        r@ == path_joined(base@, part@),
{
    proof {
        reveal_strlit("/");
    }
    let mut r = String::from_str(base);
    let n = base.unicode_len();
    if n > 0 && base.get_char(n - 1) != '/' {
        r.append("/");
    }
    r.append(part);
    r
}

/// The settings directory under a home directory: `.config/gitlogue`.
pub open spec fn config_dir_in(home: Seq<char>) -> Seq<char> {
    path_joined(path_joined(home, ".config"@), "gitlogue"@)
}

impl Config {
    /// The settings directory under `home` (see `config_dir_in`).
    pub fn config_dir(home: &str) -> (r: String)
        ensures
            r@ == config_dir_in(home@),
    {
        let dot_config = join_path(home, ".config");
        join_path(dot_config.as_str(), "gitlogue")
    }

    /// The settings file under `home`: `config.toml` in the settings
    /// directory.
    pub fn config_path_in(home: &str) -> (r: String)
        ensures
            r@ == path_joined(config_dir_in(home@), "config.toml"@),
    {
        let dir = Self::config_dir(home);
        join_path(dir.as_str(), "config.toml")
    }

    /// The user themes directory under `home`: `themes` in the settings
    /// directory.
    pub fn themes_dir_in(home: &str) -> (r: String)
        ensures
            r@ == path_joined(config_dir_in(home@), "themes"@),
    {
        let dir = Self::config_dir(home);
        join_path(dir.as_str(), "themes")
    }
}

} // verus!
