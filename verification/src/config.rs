//! The settings that the registry and the launcher are run with.
use vstd::prelude::*;
use crate::text::{chars_of, clone_strings, lemma_texts_push, texts};

verus! {

/// The settings of the launcher. What the user does not set has the value
/// that [`Config::default`] gives.
///
/// Numbers that may have a fraction are held as the 32 bits of an IEEE 754
/// single-precision number.
#[derive(Debug)]
pub struct Config {
    /// The directories that are searched for desktop entries.
    pub app_paths: Vec<String>,
    /// The command that runs terminal applications; `None` stands for
    /// `$TERM -e`.
    pub term_cmd: Option<String>,
    /// The half-life of a launch. Changing it resets the scores.
    pub half_life: u32,
    /// Height of the window in pixels.
    pub window_height: i32,
    /// Width of the window in pixels.
    pub window_width: i32,
    /// Background colour of the window.
    pub background_color: String,
    /// Colour of the window's border.
    pub border_color: String,
    /// Background colour of the input box.
    pub input_box_color: String,
    /// Colour of the text in the input box.
    pub input_text_color: String,
    /// Background colour of the selected application.
    pub selected_app_color: String,
    /// Colour of the text in the list of applications.
    pub app_text_color: String,
    /// Colour of the line between two applications.
    pub app_separator_color: String,
    /// Font size of the input box.
    pub input_font_size: i32,
    /// Font size of the list of applications.
    pub app_font_size: i32,
    /// The share of the window's height that the input box takes.
    pub input_box_ratio: u32,
}

/// The settings as plain values.
pub struct ConfigView {
    pub app_paths: Seq<Seq<char>>,
    pub term_cmd: Option<Seq<char>>,
    pub half_life: u32,
    pub window_height: i32,
    pub window_width: i32,
    pub background_color: Seq<char>,
    pub border_color: Seq<char>,
    pub input_box_color: Seq<char>,
    pub input_text_color: Seq<char>,
    pub selected_app_color: Seq<char>,
    pub app_text_color: Seq<char>,
    pub app_separator_color: Seq<char>,
    pub input_font_size: i32,
    pub app_font_size: i32,
    pub input_box_ratio: u32,
}

impl View for Config {
    type V = ConfigView;

    open spec fn view(&self) -> ConfigView {
        ConfigView {
            app_paths: texts(self.app_paths@),
            term_cmd: match self.term_cmd {
                Some(cmd) => Some(cmd@),
                None => None,
            },
            half_life: self.half_life,
            window_height: self.window_height,
            window_width: self.window_width,
            background_color: self.background_color@,
            border_color: self.border_color@,
            input_box_color: self.input_box_color@,
            input_text_color: self.input_text_color@,
            selected_app_color: self.selected_app_color@,
            app_text_color: self.app_text_color@,
            app_separator_color: self.app_separator_color@,
            input_font_size: self.input_font_size,
            app_font_size: self.app_font_size,
            input_box_ratio: self.input_box_ratio,
        }
    }
}

/// The bits of the number 7: the half-life that is used where none is set.
pub const DEFAULT_HALF_LIFE: u32 = 0x40e0_0000;

/// The bits of the single-precision number nearest to one tenth.
pub const DEFAULT_INPUT_BOX_RATIO: u32 = 0x3dcc_cccd;

/// The settings that are used where the user sets nothing.
pub open spec fn default_settings() -> ConfigView {
    ConfigView {
        app_paths: seq![
            "/usr/share/applications"@,
            "~/.local/share/applications/"@,
            "/var/lib/snapd/desktop/applications"@,
            "/var/lib/flatpak/exports/share/applications"@,
        ],
        term_cmd: None,
        half_life: DEFAULT_HALF_LIFE,
        window_height: 500,
        window_width: 500,
        background_color: "#282a36"@,
        border_color: "#2e303b"@,
        input_box_color: "#44475a"@,
        input_text_color: "#f8f8f2"@,
        selected_app_color: "#44475a"@,
        app_text_color: "#f8f8f2"@,
        app_separator_color: "#bd93f9"@,
        input_font_size: 13,
        app_font_size: 20,
        input_box_ratio: DEFAULT_INPUT_BOX_RATIO,
    }
}

impl Default for Config {
    fn default() -> (r: Self)
        ensures
            r@ == default_settings(),
    {
        let mut app_paths: Vec<String> = Vec::new();
        proof {
            assert(texts(app_paths@) =~= Seq::<Seq<char>>::empty());
        }
        let first = "/usr/share/applications".to_owned();
        proof {
            lemma_texts_push(app_paths@, first);
        }
        app_paths.push(first);
        let second = "~/.local/share/applications/".to_owned();
        proof {
            lemma_texts_push(app_paths@, second);
        }
        app_paths.push(second);
        let third = "/var/lib/snapd/desktop/applications".to_owned();
        proof {
            lemma_texts_push(app_paths@, third);
        }
        app_paths.push(third);
        let fourth = "/var/lib/flatpak/exports/share/applications".to_owned();
        proof {
            lemma_texts_push(app_paths@, fourth);
        }
        app_paths.push(fourth);
        proof {
            assert(texts(app_paths@) =~= default_settings().app_paths);
        }
        Config {
            app_paths,
            term_cmd: None,
            half_life: DEFAULT_HALF_LIFE,
            window_height: 500,
            window_width: 500,
            background_color: "#282a36".to_owned(),
            border_color: "#2e303b".to_owned(),
            input_box_color: "#44475a".to_owned(),
            input_text_color: "#f8f8f2".to_owned(),
            selected_app_color: "#44475a".to_owned(),
            app_text_color: "#f8f8f2".to_owned(),
            app_separator_color: "#bd93f9".to_owned(),
            input_font_size: 13,
            app_font_size: 20,
            input_box_ratio: DEFAULT_INPUT_BOX_RATIO,
        }
    }
}

impl Clone for Config {
    fn clone(&self) -> (r: Self)
        ensures
            r@ == self@,
    {
        Config {
            app_paths: clone_strings(&self.app_paths),
            term_cmd: match &self.term_cmd {
                Some(cmd) => Some(cmd.clone()),
                None => None,
            },
            half_life: self.half_life,
            window_height: self.window_height,
            window_width: self.window_width,
            background_color: self.background_color.clone(),
            border_color: self.border_color.clone(),
            input_box_color: self.input_box_color.clone(),
            input_text_color: self.input_text_color.clone(),
            selected_app_color: self.selected_app_color.clone(),
            app_text_color: self.app_text_color.clone(),
            app_separator_color: self.app_separator_color.clone(),
            input_font_size: self.input_font_size,
            app_font_size: self.app_font_size,
            input_box_ratio: self.input_box_ratio,
        }
    }
}

/// Why a path could not be expanded: the variable that it names, and what
/// went wrong when that variable was looked up.
#[derive(Debug)]
pub struct ExpandFailure {
    pub var_name: String,
    pub cause: String,
}

/// Why the settings could not be loaded.
#[derive(Debug)]
pub enum ConfigError {
    /// The configuration file could not be read; the text says why.
    Parse(String),
    /// A search path could not be expanded: the path, and why.
    ExpandPath(String, ExpandFailure),
}

/// Whether a path can be handed to the expansion: no `$` in it is directly
/// followed by a character outside ASCII. The expansion takes what follows a
/// `$` for the name of a variable, and does not cope with such a character
/// there.
pub open spec fn expandable(path: Seq<char>) -> bool {
    forall|i: int|
        0 <= i < path.len() - 1 && #[trigger] path[i] == '$' ==> (path[i + 1] as u32) < 128
}

/// Whether every path of a list can be handed to the expansion.
pub open spec fn all_expandable(paths: Seq<String>) -> bool {
    forall|i: int| 0 <= i < paths.len() ==> expandable(#[trigger] paths[i]@)
}

/// Whether a path has nothing to expand: no `$`, and no `~` at its start.
pub open spec fn is_literal(path: Seq<char>) -> bool {
    &&& forall|i: int| 0 <= i < path.len() ==> path[i] != '$'
    &&& path.len() > 0 ==> path[0] != '~'
}

/// Whether every path of a list has nothing to expand.
pub open spec fn all_literal(paths: Seq<String>) -> bool {
    forall|i: int| 0 <= i < paths.len() ==> is_literal(#[trigger] paths[i]@)
}

/// Whether an expansion gave the text.
pub open spec fn gave(outcome: Result<String, ExpandFailure>, text: Seq<char>) -> bool {
    match outcome {
        Ok(expanded) => expanded@ == text,
        Err(_) => false,
    }
}

/// Whether a result holds the paths as they are.
pub open spec fn gave_all(r: Result<Vec<String>, ConfigError>, paths: Seq<String>) -> bool {
    match r {
        Ok(expanded) => texts(expanded@) == texts(paths),
        Err(_) => false,
    }
}

/// Tells whether a path can be handed to the expansion.
pub fn is_expandable(path: &str) -> (r: bool)
    ensures
        r == expandable(path@),
{
    let chars = chars_of(path);
    if chars.len() < 2 {
        return true;
    }
    let mut i: usize = 0;
    while i < chars.len() - 1
        invariant
            chars@ == path@,
            chars.len() >= 2,
            i <= chars.len() - 1,
            forall|k: int|
                0 <= k < i && #[trigger] chars@[k] == '$' ==> (chars@[k + 1] as u32) < 128,
        decreases chars.len() - 1 - i,
    {
        if chars[i] == '$' && (chars[i + 1] as u32) >= 128 {
            return false;
        }
        i += 1;
    }
    true
}

/// Tells whether every path of a list can be handed to the expansion.
pub fn are_expandable(paths: &Vec<String>) -> (r: bool)
    ensures
        r == all_expandable(paths@),
{
    let mut i: usize = 0;
    while i < paths.len()
        invariant
            i <= paths.len(),
            forall|k: int| 0 <= k < i ==> expandable(#[trigger] paths@[k]@),
        decreases paths.len() - i,
    {
        if !is_expandable(paths[i].as_str()) {
            return false;
        }
        i += 1;
    }
    true
}

/// Expands a leading `~` and the variables of a path with
/// `shellexpand::full`.
///
/// The path must be one that the expansion copes with: where a `$` is
/// directly followed by a character of more than one byte, it cuts the text
/// inside that character and panics. A path with nothing to expand comes
/// back as it is. Of any other path the contract says nothing: what comes
/// out depends on the home directory and on the variables of the process, so
/// a caller has to deal with every text and with every failure.
#[verifier::external_body]
fn expand(path: &str) -> (r: Result<String, ExpandFailure>)
    requires
        expandable(path@),
    ensures
        match r {
            Ok(same) => is_literal(path@) ==> same@ == path@,
            Err(_) => !is_literal(path@),
        },
{
    match shellexpand::full(path) {
        Ok(expanded) => Ok(expanded.into_owned()),
        Err(e) => Err(ExpandFailure { var_name: e.var_name, cause: e.cause.to_string() }),
    }
}

/// The place of the first path that could not be expanded, among the first
/// `n` paths. Each path comes with its outcome.
pub open spec fn first_failure(outcomes: Seq<(String, Result<String, ExpandFailure>)>, n: int) -> Option<
    int,
>
    decreases n,
{
    if n <= 0 || n > outcomes.len() {
        None
    } else {
        match first_failure(outcomes, n - 1) {
            Some(i) => Some(i),
            None => if outcomes[n - 1].1 is Err {
                Some(n - 1)
            } else {
                None
            },
        }
    }
}

/// Whether `r` is what expanding the search paths comes to, given each path
/// with its outcome: the expanded paths in order where every path could be
/// expanded, else an error that names the first path that could not, and says
/// why.
pub open spec fn expands_to(
    r: Result<Vec<String>, ConfigError>,
    outcomes: Seq<(String, Result<String, ExpandFailure>)>,
) -> bool {
    match first_failure(outcomes, outcomes.len() as int) {
        Some(i) => r matches Err(ConfigError::ExpandPath(path, failure)) && path == outcomes[i].0
            && Err::<String, ExpandFailure>(failure) == outcomes[i].1,
        None => r matches Ok(expanded) && expanded@.len() == outcomes.len() && forall|k: int|
            0 <= k < outcomes.len() ==> Ok::<String, ExpandFailure>(#[trigger] expanded@[k])
                == outcomes[k].1,
    }
}

/// Puts together the outcomes of expanding the search paths, each path with
/// its outcome.
pub fn collect_expanded(outcomes: Vec<(String, Result<String, ExpandFailure>)>) -> (r: Result<
    Vec<String>,
    ConfigError,
>)
    ensures
        expands_to(r, outcomes@),
{
    let mut expanded: Vec<String> = Vec::new();
    let ghost all = outcomes@;
    for outcome in it: outcomes
        invariant
            it.seq() == all,
            first_failure(all, it.index() as int) is None,
            expanded@.len() == it.index(),
            forall|k: int|
                0 <= k < it.index() ==> Ok::<String, ExpandFailure>(#[trigger] expanded@[k])
                    == all[k].1,
    {
        let ghost n = it.index() as int;
        assert(all[n] == outcome);
        match outcome {
            (_, Ok(path)) => {
                expanded.push(path);
            },
            (path, Err(failure)) => {
                proof {
                    lemma_first_failure_stays(all, n + 1, all.len() as int);
                }
                return Err(ConfigError::ExpandPath(path, failure));
            },
        }
    }
    Ok(expanded)
}

/// A failure that was found among the first outcomes is the first among all.
pub proof fn lemma_first_failure_stays(
    outcomes: Seq<(String, Result<String, ExpandFailure>)>,
    n: int,
    m: int,
)
    requires
        0 <= n <= m <= outcomes.len(),
        first_failure(outcomes, n) is Some,
    ensures
        first_failure(outcomes, m) == first_failure(outcomes, n),
    decreases m - n,
{
    if n < m {
        lemma_first_failure_stays(outcomes, n, m - 1);
    }
}

/// Whether `outcomes` holds the search paths, each with an outcome, up to the
/// first that could not be expanded, or all of them where there is none. A
/// path with nothing to expand has itself for its outcome.
pub open spec fn outcomes_of(
    outcomes: Seq<(String, Result<String, ExpandFailure>)>,
    paths: Seq<String>,
) -> bool {
    &&& outcomes.len() <= paths.len()
    &&& forall|i: int| 0 <= i < outcomes.len() ==> (#[trigger] outcomes[i]).0@ == paths[i]@
    &&& forall|i: int|
        0 <= i < outcomes.len() && is_literal(paths[i]@) ==> gave(
            (#[trigger] outcomes[i]).1,
            paths[i]@,
        )
    &&& outcomes.len() < paths.len() ==> first_failure(outcomes, outcomes.len() as int) == Some(
        outcomes.len() - 1,
    )
}

/// Expands each search path, in order, up to the first that cannot be
/// expanded.
///
/// Every path must be one that the expansion copes with; [`are_expandable`]
/// tells. Whatever the environment holds, the result is what
/// [`collect_expanded`] makes of the outcomes: the expanded paths, one for
/// each path, or an error that names the path that could not be expanded.
/// Paths with nothing to expand come back as they are.
pub fn expand_paths(paths: &Vec<String>) -> (r: Result<Vec<String>, ConfigError>)
    requires
        all_expandable(paths@),
    ensures
        exists|outcomes: Seq<(String, Result<String, ExpandFailure>)>| #[trigger]
            outcomes_of(outcomes, paths@) && expands_to(r, outcomes),
        all_literal(paths@) ==> gave_all(r, paths@),
{
    let mut outcomes: Vec<(String, Result<String, ExpandFailure>)> = Vec::new();
    let mut i: usize = 0;
    let mut failed = false;
    while i < paths.len() && !failed
        invariant
            i <= paths.len(),
            all_expandable(paths@),
            outcomes@.len() == i,
            forall|k: int| 0 <= k < i ==> (#[trigger] outcomes@[k]).0@ == paths@[k]@,
            forall|k: int|
                0 <= k < i && is_literal(paths@[k]@) ==> gave(
                    (#[trigger] outcomes@[k]).1,
                    paths@[k]@,
                ),
            !failed ==> first_failure(outcomes@, i as int) is None,
            failed ==> first_failure(outcomes@, i as int) == Some(i - 1),
        decreases paths.len() - i,
    {
        let outcome = expand(paths[i].as_str());
        let ghost before = outcomes@;
        failed = outcome.is_err();
        outcomes.push((paths[i].clone(), outcome));
        proof {
            lemma_first_failure_of_prefix(before, outcomes@, i as int);
        }
        i += 1;
    }
    let ghost all = outcomes@;
    let r = collect_expanded(outcomes);
    proof {
        assert(outcomes_of(all, paths@));
        if all_literal(paths@) {
            assert forall|k: int| 0 <= k < all.len() implies (#[trigger] all[k]).1 is Ok by {
                assert(is_literal(paths@[k]@));
                assert(gave(all[k].1, paths@[k]@));
            }
            lemma_no_failure(all, all.len() as int);
            assert(all.len() == paths@.len());
            let same = r->Ok_0;
            assert forall|k: int| 0 <= k < paths@.len() implies same@[k]@ == paths@[k]@ by {
                assert(is_literal(paths@[k]@));
                assert(gave(all[k].1, paths@[k]@));
                assert(Ok::<String, ExpandFailure>(same@[k]) == all[k].1);
            }
            assert(texts(same@) =~= texts(paths@));
        }
    }
    r
}

/// Where every outcome is good there is no first failure.
pub proof fn lemma_no_failure(outcomes: Seq<(String, Result<String, ExpandFailure>)>, n: int)
    requires
        0 <= n <= outcomes.len(),
        forall|k: int| 0 <= k < outcomes.len() ==> (#[trigger] outcomes[k]).1 is Ok,
    ensures
        first_failure(outcomes, n) is None,
    decreases n,
{
    if n > 0 {
        lemma_no_failure(outcomes, n - 1);
    }
}

/// The first failure among the first `n` outcomes is the same in a list that
/// goes on after them.
pub proof fn lemma_first_failure_of_prefix(
    a: Seq<(String, Result<String, ExpandFailure>)>,
    b: Seq<(String, Result<String, ExpandFailure>)>,
    n: int,
)
    requires
        0 <= n <= a.len() <= b.len(),
        forall|k: int| 0 <= k < a.len() ==> a[k] == b[k],
    ensures
        first_failure(a, n) == first_failure(b, n),
    decreases n,
{
    if n > 0 {
        lemma_first_failure_of_prefix(a, b, n - 1);
    }
}

} // verus!
