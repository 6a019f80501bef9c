pub mod commit_form;
pub mod hunk_pane;
pub mod layout;
pub mod panes;
pub mod review;
pub mod triage_screen;
