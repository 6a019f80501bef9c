//! The user-facing strings, one table per language. A dynamic string keeps
//! a `{placeholder}` token that the caller replaces, so every table is
//! plain data.

use vstd::prelude::*;

verus! {

/// The language of the interface. English by default; `l` cycles through
/// the languages.
#[derive(Debug, Clone, Copy, PartialEq, Eq, Structural)]
pub enum Lang {
    En,
    Fr,
}

impl Default for Lang {
    fn default() -> (r: Lang)
        ensures
            r == Lang::En,
    {
        Lang::En
    }
}

pub struct Strings {
    pub files_title: &'static str,
    pub hunks_title: &'static str,
    /// `{path}` placeholder.
    pub hunks_title_with_path: &'static str,
    pub commits_title: &'static str,
    pub commit_show_title: &'static str,
    /// `{err}` placeholder.
    pub show_error: &'static str,
    pub help_switch_pane: &'static str,
    pub help_navigate: &'static str,
    pub help_reopen_triage: &'static str,
    pub help_new_commit: &'static str,
    pub help_quit: &'static str,
    pub help_hunk_accept_reject_advance: &'static str,
    pub help_hunk_accept_reject_rest: &'static str,
    pub help_hunk_next_prev: &'static str,
    pub help_hunk_next_prev_undecided: &'static str,
    pub help_hunk_split: &'static str,
    pub help_hunk_toggle: &'static str,
    pub help_commit_fixup: &'static str,
    pub help_commit_green_check: &'static str,
    pub help_language: &'static str,
    pub help_popup_title: &'static str,
    /// Compact counterparts of the `help_*` lines, for the help bar that
    /// is always on screen and must fit on one line.
    pub short_switch_pane: &'static str,
    pub short_navigate: &'static str,
    pub short_reopen_triage: &'static str,
    pub short_new_commit: &'static str,
    pub short_quit: &'static str,
    pub short_hunk_accept_reject_advance: &'static str,
    pub short_hunk_accept_reject_rest: &'static str,
    pub short_hunk_next_prev: &'static str,
    pub short_hunk_next_prev_undecided: &'static str,
    pub short_hunk_split: &'static str,
    pub short_hunk_toggle: &'static str,
    pub short_commit_fixup: &'static str,
    pub short_commit_green_check: &'static str,
    pub short_language: &'static str,
    pub commit_form_title: &'static str,
    pub commit_form_diff_title: &'static str,
    pub commit_form_validate: &'static str,
    pub commit_form_cancel: &'static str,
    /// `{n}` placeholder.
    pub status_fixup_created: &'static str,
    pub status_all_hunks_decided: &'static str,
    pub status_review_complete: &'static str,
    pub status_hunk_not_splittable: &'static str,
    /// `{n}` placeholder.
    pub status_hunk_split: &'static str,
    pub status_empty_commit_message: &'static str,
    pub status_new_commit_created: &'static str,
    pub triage_list_title: &'static str,
    pub triage_select_file_prompt: &'static str,
    pub triage_file_diff_title: &'static str,
    pub triage_help: &'static str,
}

/// `token` occurs in `s` starting at position `i`.
pub open spec fn occurs_at(s: Seq<char>, token: Seq<char>, i: int) -> bool {
    0 <= i && i + token.len() <= s.len() && s.subrange(i, i + token.len()) == token
}

/// `token` occurs somewhere in `s`.
pub open spec fn contains_text(s: Seq<char>, token: Seq<char>) -> bool {
    exists|i: int| occurs_at(s, token, i)
}

/// Every template keeps the placeholder its caller fills in.
pub open spec fn placeholders_kept(s: Strings) -> bool {
    &&& contains_text(s.hunks_title_with_path@, "{path}"@)
    &&& contains_text(s.show_error@, "{err}"@)
    &&& contains_text(s.status_fixup_created@, "{n}"@)
    &&& contains_text(s.status_hunk_split@, "{n}"@)
}

/// The English strings.
pub open spec fn english_table() -> Strings {
    Strings {
        files_title: "Files",
        hunks_title: "Hunks",
        hunks_title_with_path: "Hunks \u{2014} {path}",
        commits_title: "Commits (x = fixup)",
        commit_show_title: "git show",
        show_error: "error: {err}",
        help_switch_pane: "Tab / Shift+Tab: switch pane",
        help_navigate: "Up/Down: navigate",
        help_reopen_triage: "t: reopen the triage of evident matches",
        help_new_commit: "c: new commit with the staged hunks",
        help_quit: "q / Esc / Ctrl+C: quit",
        help_hunk_accept_reject_advance: "y / n: accept / reject this hunk and move on",
        help_hunk_accept_reject_rest: "a / d: accept / reject this hunk and the rest of the file",
        help_hunk_next_prev: "j / k: next / previous hunk (without deciding)",
        help_hunk_next_prev_undecided: "J / K: next / previous undecided hunk",
        help_hunk_split: "s: split this hunk",
        help_hunk_toggle: "Space/Enter: toggle selection (hunk or line)",
        help_commit_fixup: "x: git commit --fixup onto the selected commit",
        help_commit_green_check: "green \u{2713}: the selected file belongs to this commit",
        help_language: "l: switch language",
        help_popup_title: "Help (any key to close)",
        short_switch_pane: "Tab: pane",
        short_navigate: "\u{2191}/\u{2193}: move",
        short_reopen_triage: "t: triage",
        short_new_commit: "c: commit",
        short_quit: "q: quit",
        short_hunk_accept_reject_advance: "y/n: accept/reject",
        short_hunk_accept_reject_rest: "a/d: rest of file",
        short_hunk_next_prev: "j/k: hunk",
        short_hunk_next_prev_undecided: "J/K: undecided",
        short_hunk_split: "s: split",
        short_hunk_toggle: "Space: toggle",
        short_commit_fixup: "x: fixup",
        short_commit_green_check: "\u{2713}: in commit",
        short_language: "l: language",
        commit_form_title: "New commit (Enter: new line, Ctrl+Enter: submit, Esc: cancel)",
        commit_form_diff_title: "Commit diff",
        commit_form_validate: "Submit",
        commit_form_cancel: "Cancel",
        status_fixup_created: "{n} fixup commit(s) created",
        status_all_hunks_decided: "Every hunk is decided",
        status_review_complete: "Review complete for every file",
        status_hunk_not_splittable: "Hunk cannot be split",
        status_hunk_split: "Hunk split into {n} parts",
        status_empty_commit_message: "Empty commit message, commit cancelled",
        status_new_commit_created: "New commit created",
        triage_list_title: "Evident file -> commit matches",
        triage_select_file_prompt: "Select a file to see its diff.",
        triage_file_diff_title: "Diff of the selected file",
        triage_help: "Tab: switch pane   Space: include/exclude   a: accept in bulk   Enter/d/t/Esc: detailed review",
}
}

/// The French strings.
pub open spec fn french_table() -> Strings {
    Strings {
        files_title: "Fichiers",
        hunks_title: "Hunks",
        hunks_title_with_path: "Hunks \u{2014} {path}",
        commits_title: "Commits (x = fixup)",
        commit_show_title: "git show",
        show_error: "erreur : {err}",
        help_switch_pane: "Tab / Shift+Tab : changer de pane",
        help_navigate: "Haut/Bas : naviguer",
        help_reopen_triage: "t : rouvrir le triage des associations \u{e9}videntes",
        help_new_commit: "c : nouveau commit avec les hunks stag\u{e9}s",
        help_quit: "q / Esc / Ctrl+C : quitter",
        help_hunk_accept_reject_advance: "y / n : accepter / rejeter ce hunk et avancer",
        help_hunk_accept_reject_rest: "a / d : accepter / rejeter ce hunk et tout le reste du fichier",
        help_hunk_next_prev: "j / k : hunk suivant / pr\u{e9}c\u{e9}dent (sans d\u{e9}cider)",
        help_hunk_next_prev_undecided: "J / K : prochain / pr\u{e9}c\u{e9}dent hunk non d\u{e9}cid\u{e9}",
        help_hunk_split: "s : d\u{e9}couper ce hunk",
        help_hunk_toggle: "Espace/Entr\u{e9}e : toggle s\u{e9}lection (hunk ou ligne)",
        help_commit_fixup: "x : git commit --fixup sur le commit s\u{e9}lectionn\u{e9}",
        help_commit_green_check: "\u{2713} vert : le fichier s\u{e9}lectionn\u{e9} appartient \u{e0} ce commit",
        help_language: "l : changer de langue",
        help_popup_title: "Aide (touche quelconque pour fermer)",
        short_switch_pane: "Tab : pane",
        short_navigate: "\u{2191}/\u{2193} : naviguer",
        short_reopen_triage: "t : triage",
        short_new_commit: "c : commit",
        short_quit: "q : quitter",
        short_hunk_accept_reject_advance: "y/n : accepter/rejeter",
        short_hunk_accept_reject_rest: "a/d : reste du fichier",
        short_hunk_next_prev: "j/k : hunk",
        short_hunk_next_prev_undecided: "J/K : non d\u{e9}cid\u{e9}",
        short_hunk_split: "s : d\u{e9}couper",
        short_hunk_toggle: "Espace : toggle",
        short_commit_fixup: "x : fixup",
        short_commit_green_check: "\u{2713} : dans le commit",
        short_language: "l : langue",
        commit_form_title: "Nouveau commit (Entr\u{e9}e : nouvelle ligne, Ctrl+Entr\u{e9}e : valider, Esc : annuler)",
        commit_form_diff_title: "Diff du commit",
        commit_form_validate: "Valider",
        commit_form_cancel: "Annuler",
        status_fixup_created: "{n} commit(s) fixup cr\u{e9}\u{e9}(s)",
        status_all_hunks_decided: "Tous les hunks sont d\u{e9}cid\u{e9}s",
        status_review_complete: "Revue termin\u{e9}e pour tous les fichiers",
        status_hunk_not_splittable: "Hunk non divisible",
        status_hunk_split: "Hunk d\u{e9}coup\u{e9} en {n} parties",
        status_empty_commit_message: "Message de commit vide, commit annul\u{e9}",
        status_new_commit_created: "Nouveau commit cr\u{e9}\u{e9}",
        triage_list_title: "Associations \u{e9}videntes fichier -> commit",
        triage_select_file_prompt: "S\u{e9}lectionnez un fichier pour voir son diff.",
        triage_file_diff_title: "Diff du fichier s\u{e9}lectionn\u{e9}",
        triage_help: "Tab : changer de pane   Espace : inclure/exclure   a : valider en lot   Entr\u{e9}e/d/t/Esc : revue d\u{e9}taill\u{e9}e",
}
}

/// The strings of a language.
pub open spec fn strings_table(lang: Lang) -> Strings {
    match lang {
        Lang::En => english_table(),
        Lang::Fr => french_table(),
    }
}

pub open spec fn cycle_spec(lang: Lang) -> Lang {
    match lang {
        Lang::En => Lang::Fr,
        Lang::Fr => Lang::En,
    }
}

pub open spec fn label_spec(lang: Lang) -> Seq<char> {
    match lang {
        Lang::En => "EN"@,
        Lang::Fr => "FR"@,
    }
}

impl Lang {
    /// The next language.
    pub fn cycle(self) -> (r: Lang)
        ensures
            r == cycle_spec(self),
    {
        match self {
            Lang::En => Lang::Fr,
            Lang::Fr => Lang::En,
        }
    }

    /// The language's short label.
    pub fn label(self) -> (r: &'static str)
        ensures
            r@ == label_spec(self),
    {
        match self {
            Lang::En => "EN",
            Lang::Fr => "FR",
        }
    }

    /// The language's table of strings.
    pub fn strings(self) -> (r: Strings)
        ensures
            r == strings_table(self),
            placeholders_kept(r),
    {
        proof {
            law_placeholders_in_every_language(self);
        }
        match self {
            Lang::En => english(),
            Lang::Fr => french(),
        }
    }
}

/// Every language keeps, in each template, the placeholder its caller
/// fills in.
pub proof fn law_placeholders_in_every_language(lang: Lang)
    ensures
        placeholders_kept(strings_table(lang)),
{
    match lang {
        Lang::En => {
            reveal_strlit("Hunks \u{2014} {path}");
            reveal_strlit("{path}");
            assert(english_table().hunks_title_with_path@.subrange(8, 14) =~= "{path}"@);
            assert(occurs_at(english_table().hunks_title_with_path@, "{path}"@, 8));
            reveal_strlit("error: {err}");
            reveal_strlit("{err}");
            assert(english_table().show_error@.subrange(7, 12) =~= "{err}"@);
            assert(occurs_at(english_table().show_error@, "{err}"@, 7));
            reveal_strlit("{n} fixup commit(s) created");
            reveal_strlit("{n}");
            assert(english_table().status_fixup_created@.subrange(0, 3) =~= "{n}"@);
            assert(occurs_at(english_table().status_fixup_created@, "{n}"@, 0));
            reveal_strlit("Hunk split into {n} parts");
            assert(english_table().status_hunk_split@.subrange(16, 19) =~= "{n}"@);
            assert(occurs_at(english_table().status_hunk_split@, "{n}"@, 16));
        },
        Lang::Fr => {
            reveal_strlit("Hunks \u{2014} {path}");
            reveal_strlit("{path}");
            assert(french_table().hunks_title_with_path@.subrange(8, 14) =~= "{path}"@);
            assert(occurs_at(french_table().hunks_title_with_path@, "{path}"@, 8));
            reveal_strlit("erreur : {err}");
            reveal_strlit("{err}");
            assert(french_table().show_error@.subrange(9, 14) =~= "{err}"@);
            assert(occurs_at(french_table().show_error@, "{err}"@, 9));
            reveal_strlit("{n} commit(s) fixup cr\u{e9}\u{e9}(s)");
            reveal_strlit("{n}");
            assert(french_table().status_fixup_created@.subrange(0, 3) =~= "{n}"@);
            assert(occurs_at(french_table().status_fixup_created@, "{n}"@, 0));
            reveal_strlit("Hunk d\u{e9}coup\u{e9} en {n} parties");
            assert(french_table().status_hunk_split@.subrange(16, 19) =~= "{n}"@);
            assert(occurs_at(french_table().status_hunk_split@, "{n}"@, 16));
        },
    }
}

/// Cycling through the languages comes back to the first one after as many
/// presses as there are languages, and every press changes the language.
pub proof fn law_cycle_returns(lang: Lang)
    ensures
        cycle_spec(cycle_spec(lang)) == lang,
        cycle_spec(lang) != lang,
{
}

/// Each language has its own label.
pub proof fn law_labels_differ()
    ensures
        label_spec(Lang::En) != label_spec(Lang::Fr),
{
    reveal_strlit("EN");
    reveal_strlit("FR");
    assert(label_spec(Lang::En)[0] != label_spec(Lang::Fr)[0]);
}

fn english() -> (r: Strings)
    ensures
        r == english_table(),
{
    Strings {
        files_title: "Files",
        hunks_title: "Hunks",
        hunks_title_with_path: "Hunks \u{2014} {path}",
        commits_title: "Commits (x = fixup)",
        commit_show_title: "git show",
        show_error: "error: {err}",
        help_switch_pane: "Tab / Shift+Tab: switch pane",
        help_navigate: "Up/Down: navigate",
        help_reopen_triage: "t: reopen the triage of evident matches",
        help_new_commit: "c: new commit with the staged hunks",
        help_quit: "q / Esc / Ctrl+C: quit",
        help_hunk_accept_reject_advance: "y / n: accept / reject this hunk and move on",
        help_hunk_accept_reject_rest: "a / d: accept / reject this hunk and the rest of the file",
        help_hunk_next_prev: "j / k: next / previous hunk (without deciding)",
        help_hunk_next_prev_undecided: "J / K: next / previous undecided hunk",
        help_hunk_split: "s: split this hunk",
        help_hunk_toggle: "Space/Enter: toggle selection (hunk or line)",
        help_commit_fixup: "x: git commit --fixup onto the selected commit",
        help_commit_green_check: "green \u{2713}: the selected file belongs to this commit",
        help_language: "l: switch language",
        help_popup_title: "Help (any key to close)",
        short_switch_pane: "Tab: pane",
        short_navigate: "\u{2191}/\u{2193}: move",
        short_reopen_triage: "t: triage",
        short_new_commit: "c: commit",
        short_quit: "q: quit",
        short_hunk_accept_reject_advance: "y/n: accept/reject",
        short_hunk_accept_reject_rest: "a/d: rest of file",
        short_hunk_next_prev: "j/k: hunk",
        short_hunk_next_prev_undecided: "J/K: undecided",
        short_hunk_split: "s: split",
        short_hunk_toggle: "Space: toggle",
        short_commit_fixup: "x: fixup",
        short_commit_green_check: "\u{2713}: in commit",
        short_language: "l: language",
        commit_form_title: "New commit (Enter: new line, Ctrl+Enter: submit, Esc: cancel)",
        commit_form_diff_title: "Commit diff",
        commit_form_validate: "Submit",
        commit_form_cancel: "Cancel",
        status_fixup_created: "{n} fixup commit(s) created",
        status_all_hunks_decided: "Every hunk is decided",
        status_review_complete: "Review complete for every file",
        status_hunk_not_splittable: "Hunk cannot be split",
        status_hunk_split: "Hunk split into {n} parts",
        status_empty_commit_message: "Empty commit message, commit cancelled",
        status_new_commit_created: "New commit created",
        triage_list_title: "Evident file -> commit matches",
        triage_select_file_prompt: "Select a file to see its diff.",
        triage_file_diff_title: "Diff of the selected file",
        triage_help: "Tab: switch pane   Space: include/exclude   a: accept in bulk   Enter/d/t/Esc: detailed review",
    }
}

fn french() -> (r: Strings)
    ensures
        r == french_table(),
{
    Strings {
        files_title: "Fichiers",
        hunks_title: "Hunks",
        hunks_title_with_path: "Hunks \u{2014} {path}",
        commits_title: "Commits (x = fixup)",
        commit_show_title: "git show",
        show_error: "erreur : {err}",
        help_switch_pane: "Tab / Shift+Tab : changer de pane",
        help_navigate: "Haut/Bas : naviguer",
        help_reopen_triage: "t : rouvrir le triage des associations \u{e9}videntes",
        help_new_commit: "c : nouveau commit avec les hunks stag\u{e9}s",
        help_quit: "q / Esc / Ctrl+C : quitter",
        help_hunk_accept_reject_advance: "y / n : accepter / rejeter ce hunk et avancer",
        help_hunk_accept_reject_rest: "a / d : accepter / rejeter ce hunk et tout le reste du fichier",
        help_hunk_next_prev: "j / k : hunk suivant / pr\u{e9}c\u{e9}dent (sans d\u{e9}cider)",
        help_hunk_next_prev_undecided: "J / K : prochain / pr\u{e9}c\u{e9}dent hunk non d\u{e9}cid\u{e9}",
        help_hunk_split: "s : d\u{e9}couper ce hunk",
        help_hunk_toggle: "Espace/Entr\u{e9}e : toggle s\u{e9}lection (hunk ou ligne)",
        help_commit_fixup: "x : git commit --fixup sur le commit s\u{e9}lectionn\u{e9}",
        help_commit_green_check: "\u{2713} vert : le fichier s\u{e9}lectionn\u{e9} appartient \u{e0} ce commit",
        help_language: "l : changer de langue",
        help_popup_title: "Aide (touche quelconque pour fermer)",
        short_switch_pane: "Tab : pane",
        short_navigate: "\u{2191}/\u{2193} : naviguer",
        short_reopen_triage: "t : triage",
        short_new_commit: "c : commit",
        short_quit: "q : quitter",
        short_hunk_accept_reject_advance: "y/n : accepter/rejeter",
        short_hunk_accept_reject_rest: "a/d : reste du fichier",
        short_hunk_next_prev: "j/k : hunk",
        short_hunk_next_prev_undecided: "J/K : non d\u{e9}cid\u{e9}",
        short_hunk_split: "s : d\u{e9}couper",
        short_hunk_toggle: "Espace : toggle",
        short_commit_fixup: "x : fixup",
        short_commit_green_check: "\u{2713} : dans le commit",
        short_language: "l : langue",
        commit_form_title: "Nouveau commit (Entr\u{e9}e : nouvelle ligne, Ctrl+Entr\u{e9}e : valider, Esc : annuler)",
        commit_form_diff_title: "Diff du commit",
        commit_form_validate: "Valider",
        commit_form_cancel: "Annuler",
        status_fixup_created: "{n} commit(s) fixup cr\u{e9}\u{e9}(s)",
        status_all_hunks_decided: "Tous les hunks sont d\u{e9}cid\u{e9}s",
        status_review_complete: "Revue termin\u{e9}e pour tous les fichiers",
        status_hunk_not_splittable: "Hunk non divisible",
        status_hunk_split: "Hunk d\u{e9}coup\u{e9} en {n} parties",
        status_empty_commit_message: "Message de commit vide, commit annul\u{e9}",
        status_new_commit_created: "Nouveau commit cr\u{e9}\u{e9}",
        triage_list_title: "Associations \u{e9}videntes fichier -> commit",
        triage_select_file_prompt: "S\u{e9}lectionnez un fichier pour voir son diff.",
        triage_file_diff_title: "Diff du fichier s\u{e9}lectionn\u{e9}",
        triage_help: "Tab : changer de pane   Espace : inclure/exclure   a : valider en lot   Entr\u{e9}e/d/t/Esc : revue d\u{e9}taill\u{e9}e",
    }
}

} // verus!
