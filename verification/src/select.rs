//! Validated selection: turning the index or indices a menu returned
//! into a device index, a language code or a keyword list, the platform
//! identifier used in asset file names, and the language options a
//! keyword directory offers. The menus themselves are interactive I/O
//! and live outside this crate; the functions here take what the menu
//! returned as a value.

use vstd::prelude::*;

use crate::keywords::{parse_keyword, Keywords};

verus! {

/// The platforms the detection engine ships assets for.
#[derive(PartialEq, Eq, Clone, Copy, Debug, Structural)]
pub enum Platform {
    Mac,
    Windows,
    Linux,
}

/// The identifier a platform carries in asset file names.
pub open spec fn platform_id(p: Platform) -> Seq<char> {
    match p {
        Platform::Mac => "mac"@,
        Platform::Windows => "windows"@,
        Platform::Linux => "linux"@,
    }
}

/// The platform identifier used in keyword asset file names.
pub fn pv_platform(platform: Platform) -> (r: String)
    ensures
        r@ == platform_id(platform),
{
    match platform {
        Platform::Mac => "mac".to_owned(),
        Platform::Windows => "windows".to_owned(),
        Platform::Linux => "linux".to_owned(),
    }
}

/// Validates a device choice: the chosen position in the device list,
/// as the device index the recorder takes. Fails exactly when the
/// choice does not name a device or does not fit that index.
pub fn audio_select(devices: &Vec<String>, choice: usize) -> (r: Option<i32>)
    ensures
        r is Some <==> choice < devices@.len() && choice <= i32::MAX as usize,
        r matches Some(i) ==> i == choice,
{
    if choice < devices.len() && choice <= i32::MAX as usize {
        Some(choice as i32)
    } else {
        None
    }
}

/// Validates a language choice: the chosen position in the list of
/// (displayed name, language code) options, as the language code. Fails
/// exactly when the choice does not name an option.
pub fn language_select(languages: &Vec<(String, String)>, choice: usize) -> (r: Option<String>)
    ensures
        r is Some <==> choice < languages@.len(),
        r matches Some(code) ==> code@ == languages@[choice as int].1@,
{
    if choice < languages.len() {
        Some(languages[choice].1.clone())
    } else {
        None
    }
}

/// Validates keyword choices: each chosen position in the keyword
/// option list, as the keywords themselves, in chosen order. Fails
/// exactly when some choice does not name an option.
pub fn keywords_select(choices: &Vec<usize>) -> (r: Option<Vec<Keywords>>)
    ensures
        r is Some <==> (forall|i: int| 0 <= i < choices@.len() ==> #[trigger] choices@[i] < 1),
        r matches Some(ks) ==> ks@.len() == choices@.len() && (forall|i: int|
            0 <= i < choices@.len() ==> Some(#[trigger] ks@[i]) == parse_keyword("position"@)),
{
    let options = Keywords::options();
    let n = choices.len();
    let mut selected: Vec<Keywords> = Vec::new();
    let mut i: usize = 0;
    while i < n
        invariant
            n == choices@.len(),
            i <= n,
            options@.len() == 1,
            options@[0]@ == "position"@,
            selected@.len() == i,
            forall|j: int| 0 <= j < i ==> #[trigger] choices@[j] < 1,
            forall|j: int|
                0 <= j < i ==> Some(#[trigger] selected@[j]) == parse_keyword("position"@),
        decreases n - i,
    {
        let choice = choices[i];
        if choice >= options.len() {
            return None;
        }
        match Keywords::from_str(options[choice]) {
            Ok(k) => {
                selected.push(k);
            },
            Err(()) => {
                proof {
                    assert(false);
                }
                return None;
            },
        }
        i = i + 1;
    }
    Some(selected)
}

/// What the autonym tables give for an ISO 639-1 code: the language's
/// native name, or nothing when the code is unassigned or the tables
/// carry no native name for it.
pub uninterp spec fn autonym_of(code: Seq<char>) -> Option<Seq<char>>;

/// Relies on isolang::Language::from_639_1 and Language::to_autonym:
/// both are lookups in the crate's fixed tables, so the result depends
/// on the code alone.
#[verifier::external_body]
fn lookup_autonym(code: &str) -> (r: Option<String>)
    ensures
        r matches Some(name) ==> autonym_of(code@) == Some(name@),
        r is None ==> autonym_of(code@) is None,
{
    match isolang::Language::from_639_1(code) {
        Some(language) => match language.to_autonym() {
            Some(name) => Some(name.to_owned()),
            None => None,
        },
        None => None,
    }
}

/// The language options a list of language codes offers: for each code
/// with a native name, the pair (native name, code), in the given
/// order; codes without one are left out.
pub open spec fn language_options(codes: Seq<Seq<char>>) -> Seq<(Seq<char>, Seq<char>)>
    decreases codes.len(),
{
    if codes.len() == 0 {
        Seq::empty()
    } else {
        language_options(codes.drop_last()) + (match autonym_of(codes.last()) {
            Some(name) => seq![(name, codes.last())],
            None => Seq::empty(),
        })
    }
}

/// Turns the subdirectory names of the keyword asset root — one per
/// language code — into the selectable (displayed name, code) options,
/// in listing order.
pub fn language_list(codes: &Vec<String>) -> (r: Vec<(String, String)>)
    ensures
        r@.map_values(|p: (String, String)| (p.0@, p.1@)) == language_options(
            codes@.map_values(|c: String| c@),
        ),
{
    let n = codes.len();
    let mut languages: Vec<(String, String)> = Vec::new();
    let mut i: usize = 0;
    while i < n
        invariant
            n == codes@.len(),
            i <= n,
            languages@.map_values(|p: (String, String)| (p.0@, p.1@)) == language_options(
                codes@.take(i as int).map_values(|c: String| c@),
            ),
        decreases n - i,
    {
        let ghost before = languages@.map_values(|p: (String, String)| (p.0@, p.1@));
        match lookup_autonym(codes[i].as_str()) {
            Some(name) => {
                languages.push((name, codes[i].clone()));
            },
            None => {},
        }
        proof {
            let grown = codes@.take(i + 1).map_values(|c: String| c@);
            assert(grown.drop_last() =~= codes@.take(i as int).map_values(|c: String| c@));
            assert(grown.last() == codes@[i as int]@);
            assert(languages@.map_values(|p: (String, String)| (p.0@, p.1@)) =~= language_options(
                grown,
            ));
        }
        i = i + 1;
    }
    proof {
        assert(codes@.take(n as int) =~= codes@);
    }
    languages
}

} // verus!
