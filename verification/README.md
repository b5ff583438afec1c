# Panoramix

Panoramix is a data-driven, declarative GUI framework in the spirit of React,
built on the Druid toolkit. Components are functions from props and local
state to a tree of elements; the framework builds widgets from that tree and,
when an event changes the state, rebuilds the tree and edits the widgets to
match.

## Layout

- `src/` is the verified core, written in Verus:
  - `elements/compute_diff.rs`: the diff of two keyed lists, as a sequence of
    splices, with its specification (`diff`);
  - `elements/apply_mutation.rs`: applying a diff to the items of the old list,
    matching the states and widgets of a keyed list with its new keys, and the
    laws of the diff (applying it yields the new keys; kept items keep their
    keys and their order; an unchanged list keeps every item);
  - `glue.rs`: the queue of widget actions, one pending action per element id;
  - `elements/{button,checkbox,clickable,textbox}.rs`: how each element turns
    its pending action into an event;
  - `ctx.rs`, `metadata.rs`, `elements/with_event.rs`: component contexts,
    metadata and event conversions;
  - `component_signature.rs`: the rules of the `#[component]` attribute.
- `app/` holds what needs Druid, floating point or `std::any`: the element and
  virtual-DOM traits and their implementations, the widgets and flex layout,
  the root widget, the test harness and the code of the `#[component]`
  attribute.
- `tests/` exercises the verified core.
