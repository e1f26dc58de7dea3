# lex-k8s

A validating admission wall for Kubernetes, written in Verus.

A pod compiles to typed effect rows. Each row carries the grant that it demands, and their join is
what the grant of the pod's namespace has to cover. Around that compiler stand four walls: the
lattice bounds how far a pod reaches, the `pod` facet bounds where, earned standing withholds waivers
from submitters without a record, and the budget bounds what a namespace commits to reserving. A
refusal is a typed record that names the wall, the effect, the field it came from, and what the grant
does allow.

## Layout

| path | what it holds |
| --- | --- |
| `src/grant.rs` | the capability lattice |
| `src/spec.rs`, `src/pod.rs`, `src/effect.rs` | pod specs, effects, and the compiler between them |
| `src/cluster.rs` | the snapshot of cluster state that a verdict depends on |
| `src/cost.rs` | quantities, effective reservations, prices |
| `src/facet.rs`, `src/manifest.rs` | what a `LexManifest` grants by name, and narrowing |
| `src/trust.rs` | keyrings and standing |
| `src/admission.rs`, `src/review.rs` | the decision, and the webhook's wire format |
| `src/ledger.rs`, `src/audit.rs` | the ledger of decisions, and whether records can be relied on |
| `src/cli.rs` | the command line: commands, flags, reports |
| `src/serve/` | what a server decides from its watch caches |
| `src/json.rs`, `src/scan.rs`, `src/canonical.rs`, `src/digest.rs`, `src/text.rs`, `src/map.rs`, `src/order.rs`, `src/model.rs` | the ground that the rest stands on |
| `app/` | the program: files, standard streams, TLS, the cluster client, hash chains and seals |
| `tests/` | scenarios and exact values |

Every type of the library has a model, given by its `deep_view`, and contracts are stated over the
models. Each module ends with its laws: proof functions that say what holds of several functions
together.

## What is trusted

Verus takes the contracts of these on faith; each is a few lines that make one call.

- `json::parse_value`, `json::take_apart`, `json::quote`, `scan::take_first`, `scan::pass_first`,
  `scan::pass_over`: `serde_json`
- `json::unexpected_string`: `serde`
- `digest::sha256`: `sha2`
- `digest::hex_encode`, `digest::hex_decode`: `hex`
- `cost::to_uppercase` and `String::push`: the standard library

## What is promised

- A pod is admitted exactly where every wall lets it through, and a denial gives every reason.
- A keyring and a price list only ever refuse; neither admits what the manifest does not.
- A manifest that narrows its parent admits nothing that the parent would refuse.
- A manifest cannot widen past what the cluster trusts: an image from a source that it does not trust,
  pinned or not, is refused under every image policy, whatever prefixes that names.
- No policy that selects a pod is no restriction, and a cold cache never decides.
- What the snapshot says does not depend on the order in which a cache lists.
- A field that the reader of a manifest does not know is refused, and so is one that a text gives
  twice to a record that is read straight from it.
- A snapshot that is written reads back as it was, and no two are written alike: what is hashed into
  its identity says one cluster state. Nor are two entries of a record or of the ledger.
- A decision that was witnessed and whose record is gone is reported, and so is a record that nobody
  witnessed.

Exit codes: 0 admitted, 8 refused, 2 the wall could not run.
