# bevy_bae

Hierarchical task network planning for Bevy, with its planning logic verified
by Verus.

- `src/` is the verified library:
  - `props` — the boundary to the property store of `bevy_mod_props`
    (trusted wrappers and the names of what they compute);
  - `condition` — conditions over properties and what evaluating them does;
    a test written by a user states what it may answer through
    `PropsPredicate::answers` / `ValuePredicate::answers`;
  - `effect` — effects on properties and what applying them does; a change
    written by a user states what it may do through `PropsEffect::changes` /
    `ValueMutation::mutates`;
  - `plan` — plans, their method traversal record (`plan::mtr`), the
    decisions of a plan update (`plan::update`) and the logged text of a plan
    (`plan::log`);
  - `task::operator` — the inputs of an operator;
  - `text` — decimal text of numbers;
  - `shared` — telling apart values shared behind an `Arc`.
- `app/` is the Bevy side: components and events around the library's types,
  operators as one-shot systems, the observers that update and log plans, and
  the plugin.
- `tests/` exercise the library on concrete values.

Entities are given to the library by their bits (`Entity::to_bits`).
