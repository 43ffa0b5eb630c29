# range source core

The verified core of a text input whose source lives with a host and is fetched page by
page. The library checks what the host hands back and keeps the bookkeeping around it:

- `coordinates`: byte and line offsets, checked ranges, source extents and bindings.
- `request`, `page`: page demands and their keys, and the exact validation of a returned page
  (payload length, document edges, demand envelope, atoms, retained charge).
- `object_request`, `object_page`, `object`: the same for pages of source-zero-width inline
  objects, with their ordering and continuation rules.
- `position`: composite positions (byte offset plus object gap), their order, and ranges.
- `utf16`, `replay`, `resident`: exact translation between UTF-16 and UTF-8 offsets, for one
  text, page by page for a platform replay, and over the pages a surface holds resident.
- `interaction`: caret, extent and composition successors of a replacement.
- `cleanup`, `cleanup_ledger`, `prepublication`, `charge`, `dispatch`: the cleanup ledger of
  prepublication sessions, capacity charges, and the set of dispatched request keys.
- `limits`: the integer limits a widget configuration must meet.

Every public function of `src/` states its result in `ensures`, and the laws that relate
several calls are public proof functions. Presentation metrics are single-precision bit
patterns, compared and checked with IEEE semantics. `tests/` runs the library on concrete
values. `app/` holds what needs the layout engine: conversions to its streaming position
types, pixel values of presentations, the floating-point checks of configuration metrics, and
the lock-guarded shared ledger.

Not here: the widget itself (`RangeTextInput` and its methods: construction, geometry and
residency delivery, response publication, clipboard and edit handling). Every step of it
drives residency, geometry, edit, clipboard and history components and layout-engine entities
whose sources are not part of this code base, so no faithful contract can be written for it.
What of it is plain arithmetic on integers (the limit checks, the request capacity) stands in
`limits` and `prepublication`. The prepublication validation requests, responses and steps,
and the pending history, carry the missing history types and are left out for the same
reason.
