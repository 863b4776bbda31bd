# rowifi

The core of RoWifi, a Discord bot that links Discord members to Roblox accounts and
gives them roles and nicknames from the guild's binds, written in Verus with its
behaviour stated in `requires`/`ensures` contracts and proved.

## Layout

- `src/` — the verified library:
  - `custombinds/` — the custom bind language: a parser from text to expressions and an
    evaluator over a member's roles, group ranks and username;
  - `assetbinds.rs`, `groupbinds.rs`, `rankbinds/`, `denylists/`, `events/` — what adding
    and deleting binds, deny lists, event types and events stores;
  - `user/update.rs` — the member update: deny lists, the roles each bind gives, the
    nickname template, bypass roles; with a soundness law;
  - `custom.rs`, `custom/` — custom command workflows: validation, a check that validation
    ends (no cycle among the nodes reached from the start), and each node's step from its
    inputs to its outputs, outcome or outside request;
  - `backups/` — backing up a guild's settings by role name and restoring them;
  - `framework/` — reading command options into typed arguments, subcommand routing,
    page navigation and the framework's errors;
  - `models/`, `roblox/`, `id.rs` — the data model.
- `app/` — the service layer: Postgres, Discord, Roblox and Lemon Squeezy calls, the
  serde forms of the stored models, and the async drivers that carry out what the
  library decides.
- `tests/` — tests of the library on concrete values.
