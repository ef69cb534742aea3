//! User settings: the known engines, validation before saving, and the field-by-field
//! repair of a settings file that an older version left inconsistent.

use vstd::prelude::*;
use crate::engines::strings_view;

verus! {

pub const KNOWN_ENGINES: [&'static str; 3] = ["google", "bing", "mymemory"];

pub const LANGUAGES_EQUAL: &'static str = "Основной и запасной языки должны отличаться";

pub const NO_ENGINES: &'static str = "Выберите хотя бы один движок перевода";

pub open spec fn known_engine(e: Seq<char>) -> bool {
    e == "google"@ || e == "bing"@ || e == "mymemory"@
}

/// `s.to_owned() == t.to_owned()`.
fn same_str(s: &str, t: &str) -> (r: bool)
    ensures
        r == (s@ == t@),
{
    let a = s.to_owned();
    let b = t.to_owned();
    a == b
}

pub fn is_known_engine(engine: &str) -> (r: bool)
    ensures
        r == known_engine(engine@),
{
    same_str(engine, "google") || same_str(engine, "bing") || same_str(engine, "mymemory")
}

#[derive(Clone, Debug)]
pub struct Settings {
    pub hotkey_popup: String,
    pub hotkey_replace: String,
    pub hotkey_window: String,
    pub hotkey_screen: String,
    pub primary_lang: String,
    pub secondary_lang: String,
    pub engines: Vec<String>,
    pub theme: String,
    pub ui_lang: String,
    pub history_enabled: bool,
    pub show_original: bool,
    pub font_size: u8,
}

pub open spec fn default_engines() -> Seq<Seq<char>> {
    seq!["google"@, "bing"@, "mymemory"@]
}

/// Engines that are known, in their order.
pub open spec fn known_only(es: Seq<Seq<char>>) -> Seq<Seq<char>>
    decreases es.len(),
{
    if es.len() == 0 {
        seq![]
    } else if known_engine(es.last()) {
        known_only(es.drop_last()).push(es.last())
    } else {
        known_only(es.drop_last())
    }
}

/// Engine list after repair: unknown engines dropped; an empty result falls back to the
/// default chain.
pub open spec fn repaired_engines(es: Seq<Seq<char>>) -> Seq<Seq<char>> {
    if known_only(es).len() == 0 {
        default_engines()
    } else {
        known_only(es)
    }
}

/// Secondary language after repair: equal languages are split by taking the default pair.
pub open spec fn repaired_secondary(primary: Seq<char>, secondary: Seq<char>) -> Seq<char> {
    if secondary == primary {
        if primary == "ru"@ {
            "en"@
        } else {
            "ru"@
        }
    } else {
        secondary
    }
}

fn default_engine_list() -> (v: Vec<String>)
    ensures
        strings_view(v@) == default_engines(),
{
    let mut v: Vec<String> = Vec::new();
    v.push("google".to_owned());
    v.push("bing".to_owned());
    v.push("mymemory".to_owned());
    assert(strings_view(v@) =~= default_engines());
    v
}

impl Default for Settings {
    fn default() -> (s: Self)
        ensures
            s.hotkey_popup@ == "Ctrl+Alt+T"@,
            s.hotkey_replace@ == "Ctrl+Alt+R"@,
            s.hotkey_window@ == "Ctrl+Alt+W"@,
            s.hotkey_screen@ == "Ctrl+Alt+S"@,
            s.primary_lang@ == "ru"@,
            s.secondary_lang@ == "en"@,
            strings_view(s.engines@) == default_engines(),
            s.theme@ == "system"@,
            s.ui_lang@ == "ru"@,
            s.history_enabled,
            !s.show_original,
            s.font_size == 21,
    {
        Settings {
            hotkey_popup: "Ctrl+Alt+T".to_owned(),
            hotkey_replace: "Ctrl+Alt+R".to_owned(),
            hotkey_window: "Ctrl+Alt+W".to_owned(),
            hotkey_screen: "Ctrl+Alt+S".to_owned(),
            primary_lang: "ru".to_owned(),
            secondary_lang: "en".to_owned(),
            engines: default_engine_list(),
            theme: "system".to_owned(),
            ui_lang: "ru".to_owned(),
            history_enabled: true,
            show_original: false,
            // Translation font size from the design token sheet.
            font_size: 21,
        }
    }
}

pub open spec fn validate_spec(primary: Seq<char>, secondary: Seq<char>, engines: nat) -> Result<
    (),
    Seq<char>,
> {
    if primary == secondary {
        Err(LANGUAGES_EQUAL@)
    } else if engines == 0 {
        Err(NO_ENGINES@)
    } else {
        Ok(())
    }
}

pub open spec fn unit_result_view(r: Result<(), String>) -> Result<(), Seq<char>> {
    match r {
        Ok(()) => Ok(()),
        Err(e) => Err(e@),
    }
}

impl Settings {
    /// Settings are saved only with two different languages and at least one engine.
    pub fn validate(&self) -> (r: Result<(), String>)
        ensures
            unit_result_view(r) == validate_spec(
                self.primary_lang@,
                self.secondary_lang@,
                self.engines@.len(),
            ),
    {
        if self.primary_lang == self.secondary_lang {
            return Err(LANGUAGES_EQUAL.to_owned());
        }
        if self.engines.len() == 0 {
            return Err(NO_ENGINES.to_owned());
        }
        Ok(())
    }

    /// Repairs only the broken fields: equal languages and unknown or missing engines.
    /// Hotkeys, theme, font size and the other fields are kept.
    pub fn sanitized(self) -> (r: Self)
        ensures
            r.secondary_lang@ == repaired_secondary(self.primary_lang@, self.secondary_lang@),
            strings_view(r.engines@) == repaired_engines(strings_view(self.engines@)),
            strings_view(self.engines@).filter(is_known()).len() > 0 ==> strings_view(r.engines@)
                == strings_view(self.engines@).filter(is_known()),
            r.primary_lang == self.primary_lang,
            r.hotkey_popup == self.hotkey_popup,
            r.hotkey_replace == self.hotkey_replace,
            r.hotkey_window == self.hotkey_window,
            r.hotkey_screen == self.hotkey_screen,
            r.theme == self.theme,
            r.ui_lang == self.ui_lang,
            r.history_enabled == self.history_enabled,
            r.show_original == self.show_original,
            r.font_size == self.font_size,
    {
        let mut s = self;
        if s.secondary_lang == s.primary_lang {
            s.secondary_lang = if same_str(s.primary_lang.as_str(), "ru") {
                "en".to_owned()
            } else {
                "ru".to_owned()
            };
        }
        let ghost before = strings_view(s.engines@);
        let mut kept: Vec<String> = Vec::new();
        let mut i: usize = 0;
        while i < s.engines.len()
            invariant
                i <= s.engines.len(),
                before == strings_view(s.engines@),
                strings_view(kept@) == known_only(before.take(i as int)),
            decreases s.engines.len() - i,
        {
            assert(before.take(i + 1).drop_last() == before.take(i as int));
            assert(before.take(i + 1).last() == s.engines@[i as int]@);
            if is_known_engine(s.engines[i].as_str()) {
                let e = s.engines[i].clone();
                kept.push(e);
                assert(strings_view(kept@) =~= known_only(before.take(i as int)).push(
                    s.engines@[i as int]@,
                ));
            }
            i += 1;
        }
        assert(before.take(s.engines.len() as int) == before);
        proof {
            law_repair_drops_only_unknown_engines(before);
        }
        if kept.len() == 0 {
            s.engines = default_engine_list();
        } else {
            s.engines = kept;
        }
        s
    }
}

/// A repaired settings file always passes validation.
pub proof fn law_repaired_settings_are_valid(
    primary: Seq<char>,
    secondary: Seq<char>,
    engines: Seq<Seq<char>>,
)
    ensures
        validate_spec(
            primary,
            repaired_secondary(primary, secondary),
            repaired_engines(engines).len(),
        ) == Ok::<(), Seq<char>>(()),
{
    reveal_strlit("ru");
    reveal_strlit("en");
    if secondary == primary && primary == "ru"@ {
        assert("en"@ != "ru"@) by {
            assert("en"@[0] != "ru"@[0]);
        }
    }
}

/// Repair changes nothing in settings that are already consistent: different languages
/// and only known engines.
pub proof fn law_repair_keeps_valid_settings(
    primary: Seq<char>,
    secondary: Seq<char>,
    engines: Seq<Seq<char>>,
)
    requires
        primary != secondary,
        engines.len() > 0,
        forall|i: int| 0 <= i < engines.len() ==> known_engine(#[trigger] engines[i]),
    ensures
        repaired_secondary(primary, secondary) == secondary,
        repaired_engines(engines) == engines,
{
    lemma_known_only_all_known(engines);
}

proof fn lemma_known_only_all_known(es: Seq<Seq<char>>)
    requires
        forall|i: int| 0 <= i < es.len() ==> known_engine(#[trigger] es[i]),
    ensures
        known_only(es) == es,
    decreases es.len(),
{
    if es.len() > 0 {
        let p = es.drop_last();
        assert forall|i: int| 0 <= i < p.len() implies known_engine(#[trigger] p[i]) by {
            assert(p[i] == es[i]);
        }
        lemma_known_only_all_known(p);
        assert(known_engine(es[es.len() - 1]));
        assert(p.push(es.last()) == es);
    }
}

/// Whether an engine name is one of the supported engines, as a predicate on names.
pub open spec fn is_known() -> spec_fn(Seq<char>) -> bool {
    |e: Seq<char>| known_engine(e)
}

proof fn lemma_known_only_is_filter(es: Seq<Seq<char>>)
    ensures
        known_only(es) == es.filter(is_known()),
    decreases es.len(),
{
    reveal(Seq::filter);
    if es.len() > 0 {
        lemma_known_only_is_filter(es.drop_last());
    }
}

/// Repair drops exactly the unknown engines: every known engine of the stored list is kept,
/// in its order, and nothing else; only a list without any known engine is replaced by the
/// default chain.
pub proof fn law_repair_drops_only_unknown_engines(engines: Seq<Seq<char>>)
    ensures
        engines.filter(is_known()).len() > 0 ==> repaired_engines(engines) == engines.filter(
            is_known(),
        ),
        engines.filter(is_known()).len() == 0 ==> repaired_engines(engines)
            == seq!["google"@, "bing"@, "mymemory"@],
{
    lemma_known_only_is_filter(engines);
}

} // verus!
