//! Translations: choosing the language and looking up words.
use vstd::prelude::*;
use vstd::utf8::{encode_utf8, is_char_boundary};
use crate::settings::Language;

verus! {

/// A translation: the language code and its words by key (each key once,
/// see `langs_wf`).
#[derive(Clone, Debug)]
pub struct Lang {
    pub name: String,
    pub words: Vec<(String, String)>,
}

/// The locale of the system, as `sys_locale::get_locale` reports it. Nothing
/// is stated of it: it depends on the environment.
#[verifier::external_body]
fn system_locale() -> Option<String> {
    sys_locale::get_locale()
}

/// Whether `res` is the language code of the locale name `locale`: `en` for
/// the locale `C`, else the text of its first two bytes; a missing locale
/// counts as `en-US`. `None` where the name is shorter than two bytes or its
/// first two bytes do not make whole characters.
pub open spec fn is_locale_code(locale: Option<String>, res: Option<String>) -> bool {
    let l = match locale {
        Some(s) => s@,
        None => "en-US"@,
    };
    if l == "C"@ {
        res matches Some(r) && r@ == "en"@
    } else if is_char_boundary(encode_utf8(l), 2) {
        res matches Some(r) && encode_utf8(r@) == encode_utf8(l).subrange(0, 2)
    } else {
        res is None
    }
}

/// The language code of a locale name (see `is_locale_code`).
pub fn locale_code(locale: Option<String>) -> (res: Option<String>)
    ensures
        is_locale_code(locale, res),
{
    let locale = match locale {
        Some(s) => s,
        None => String::from_str("en-US"),
    };
    let c = String::from_str("C");
    if locale == c {
        return Some(String::from_str("en"));
    }
    let s = locale.as_str();
    assert(s@ == locale@);
    if s.is_char_boundary(2) {
        let (head, _) = s.split_at(2);
        let r = head.to_owned();
        assert(encode_utf8(head@) == encode_utf8(locale@).subrange(0, 2));
        assert(encode_utf8(r@) == encode_utf8(locale@).subrange(0, 2));
        Some(r)
    } else {
        None
    }
}

/// The language code for a language setting: `de`, `en`, or the code of the
/// system's locale (see `locale_code`), which is `None` where that locale
/// gives none.
pub fn lang_code(lang: Language) -> (res: Option<String>)
    ensures
        lang == Language::De ==> (res matches Some(r) && r@ == "de"@),
        lang == Language::En ==> (res matches Some(r) && r@ == "en"@),
        lang == Language::System ==> exists|locale: Option<String>| #[trigger] is_locale_code(locale, res),
{
    match lang {
        Language::System => {
            let locale = system_locale();
            let ghost read = locale;
            let res = locale_code(locale);
            assert(is_locale_code(read, res));
            res
        },
        Language::De => Some(String::from_str("de")),
        Language::En => Some(String::from_str("en")),
    }
}

/// The position of the last translation named `code`, or -1.
pub open spec fn last_lang(langs: Seq<Lang>, code: Seq<char>) -> int
    decreases langs.len(),
{
    if langs.len() == 0 {
        -1
    } else if langs.last().name@ == code {
        langs.len() - 1
    } else {
        last_lang(langs.drop_last(), code)
    }
}

/// The word for `key`: the first entry with that key.
pub open spec fn word_of(words: Seq<(Seq<char>, Seq<char>)>, key: Seq<char>) -> Option<Seq<char>>
    decreases words.len(),
{
    if words.len() == 0 {
        None
    } else if words[0].0 == key {
        Some(words[0].1)
    } else {
        word_of(words.drop_first(), key)
    }
}

/// `last_lang` is -1 or a position.
pub proof fn lemma_last_lang(langs: Seq<Lang>, code: Seq<char>)
    ensures
        -1 <= last_lang(langs, code) < langs.len(),
    decreases langs.len(),
{
    if langs.len() > 0 {
        lemma_last_lang(langs.drop_last(), code);
    }
}

/// The position of the last translation named `code`.
fn find_last_lang(langs: &Vec<Lang>, code: &String) -> (res: Option<usize>)
    ensures
        match res {
            Some(n) => n == last_lang(langs@, code@),
            None => last_lang(langs@, code@) == -1,
        },
{
    let mut i = langs.len();
    assert(langs@.take(i as int) =~= langs@);
    while i > 0
        invariant
            i <= langs@.len(),
            last_lang(langs@, code@) == last_lang(langs@.take(i as int), code@),
        decreases i,
    {
        assert(langs@.take(i as int).drop_last() =~= langs@.take(i - 1));
        if langs[i - 1].name == *code {
            return Some(i - 1);
        }
        i -= 1;
    }
    None
}

/// No key occurs twice among the words of a translation.
pub open spec fn keys_unique(words: Seq<(Seq<char>, Seq<char>)>) -> bool {
    forall|i: int, j: int| 0 <= i < j < words.len() ==> #[trigger] words[i].0 != #[trigger] words[j].0
}

/// Every translation has each key once.
pub open spec fn langs_wf(langs: Seq<Lang>) -> bool {
    forall|i: int| 0 <= i < langs.len() ==> keys_unique(#[trigger] langs[i].words.deep_view())
}

/// Whether no key occurs twice among `words`.
fn keys_unique_check(words: &Vec<(String, String)>) -> (res: bool)
    ensures
        res == keys_unique(words.deep_view()),
{
    let ghost w = words.deep_view();
    let mut i: usize = 0;
    while i < words.len()
        invariant
            w == words.deep_view(),
            i <= words@.len(),
            forall|a: int, b: int| 0 <= a < i && a < b < w.len() ==> #[trigger] w[a].0 != #[trigger] w[b].0,
        decreases words@.len() - i,
    {
        let mut j: usize = i + 1;
        while j < words.len()
            invariant
                w == words.deep_view(),
                i < j <= words@.len(),
                i < words@.len(),
                forall|a: int, b: int| 0 <= a < i && a < b < w.len() ==> #[trigger] w[a].0 != #[trigger] w[b].0,
                forall|b: int| i < b < j ==> w[i as int].0 != #[trigger] w[b].0,
            decreases words@.len() - j,
        {
            if words[i].0 == words[j].0 {
                assert(w[i as int].0 == w[j as int].0);
                return false;
            }
            j += 1;
        }
        i += 1;
    }
    true
}

/// Whether every translation has each key once (see `langs_wf`).
pub fn langs_well_formed(langs: &Vec<Lang>) -> (res: bool)
    ensures
        res == langs_wf(langs@),
{
    let mut i: usize = 0;
    while i < langs.len()
        invariant
            i <= langs@.len(),
            forall|k: int| 0 <= k < i ==> keys_unique(#[trigger] langs@[k].words.deep_view()),
        decreases langs@.len() - i,
    {
        if !keys_unique_check(&langs[i].words) {
            return false;
        }
        i += 1;
    }
    true
}

/// The translation of `key` in the language `code`: the word of the last
/// translation named `code`, or `missing` when it lacks the key. `None` when
/// no translation has that name.
pub fn translate(langs: &Vec<Lang>, code: &String, key: &str) -> (res: Option<String>)
    requires
        langs_wf(langs@),
    ensures
        last_lang(langs@, code@) < 0 ==> res is None,
        last_lang(langs@, code@) < langs@.len(),
        last_lang(langs@, code@) >= 0 ==> (res matches Some(r) && r@ == match word_of(
            langs@[last_lang(langs@, code@)].words.deep_view(),
            key@,
        ) {
            Some(w) => w,
            None => "missing"@,
        }),
{
    proof {
        lemma_last_lang(langs@, code@);
    }
    let found = find_last_lang(langs, code);
    match found {
        None => None,
        Some(n) => {
            let words = &langs[n].words;
            let k = String::from_str(key);
            let mut j: usize = 0;
            assert(words.deep_view().subrange(0, words@.len() as int) =~= words.deep_view());
            while j < words.len()
                invariant
                    n == last_lang(langs@, code@),
                    n < langs@.len(),
                    *words == langs@[n as int].words,
                    j <= words@.len(),
                    k@ == key@,
                    word_of(words.deep_view(), key@) == word_of(words.deep_view().subrange(j as int, words@.len() as int), key@),
                decreases words@.len() - j,
            {
                let ghost rest = words.deep_view().subrange(j as int, words@.len() as int);
                assert(rest[0] == words.deep_view()[j as int]);
                if words[j].0 == k {
                    return Some(words[j].1.clone());
                }
                assert(rest.drop_first() =~= words.deep_view().subrange(j + 1, words@.len() as int));
                j += 1;
            }
            Some(String::from_str("missing"))
        },
    }
}

} // verus!
