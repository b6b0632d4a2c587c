# dvr

dvr is a source-control daemon on top of [jj](https://github.com/jj-vcs/jj): the
working copy is always a commit, every file change is snapshotted, and history is
named after the fact. This crate is the part of it that decides, written in Verus
with its behaviour stated in contracts and proved.

## Layout

- `src/` is the verified library. Work that touches the disk, the network, git or
  the jj store is named there as an action for a caller to perform, and what came of
  it is handed back as a reply: each operation is a machine with a `step`, and its
  contract is a relation between what it was, the reply, what it is and the next
  action.
  - `commits`, `engine`, `ids`, `files`, `status`: what a log shows, what a prefix
    names, what a file or a status says.
  - `ops`, `describe`, `snapshot`, `git_import`, `git`, `push`, `workspace_ops`,
    `clones`, `others`, `settings`: the operations on a repo.
  - `state`, `registry`, `reload`, `watcher`, `routes`, `daemon`, `proto`, `error`: the daemon.
  - `client`, `commands`: the command line.
  - `text`, `paths`, `lists`, `sort`: what the rest is built from.
- `tests/` runs the library on concrete values.
- `app/` is ordinary Rust around it: it performs the actions with jj-lib, git, a
  unix socket and the file system, and holds the JSON form of the values.

## What is proved of whole runs

The public proof functions state it; among them:

- `push::pushes_are_guarded`, `push::one_write_per_push`,
  `push::refused_pushes_write_nothing`, `push::every_push_ends`
- `daemon::served_repos_were_scanned`
- `registry::loading_keeps_what_opens`, `registry::registrations_are_all_or_nothing`,
  `registry::every_repo_is_tried`
- `reload::registrations_survive_a_restart`, `reload::registry_is_never_behind`,
  `reload::registering_again_gives_the_same`
- `git_import::second_opening_changes_nothing`, `git_import::opened_repos_are_set_up`,
  `git_import::opening_again_gives_the_same`
- `describe::described_change_shows_its_message`, `describe::described_messages_stay`
- `status::every_workspace_has_its_row`, `others::loaded_workspaces_are_those_that_load`
- `files::changes_are_those_between_trees`, `files::changes_turn_round`
- `snapshot::unchanged_snapshots_do_nothing`,
  `snapshot::snapshots_answer_for_what_changed`,
  `snapshot::ordering_is_by_names_alone`, `snapshot::snapshots_go_in_order`, `snapshot::every_workspace_is_snapshotted`
- `workspace_ops::workspaces_are_all_or_nothing`
- `client::one_start_per_connection`, `client::segments_tell_texts_apart`
- `commits::equal_times_keep_descendants_first`, `commits::log_is_child_first`, `engine::full_change_id_resolves`
