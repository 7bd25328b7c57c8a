# sysmlv2_model

The semantic model layer for SysML v2 and KerML: it lowers a syntax tree to
the abstract-syntax element graph, resolves names across units and libraries,
assigns deterministic element ids, and answers queries on the result. The
library is written in Verus; every function in `src/` is verified.

## Layout

| Modules | What they hold |
| --- | --- |
| `ast`, `syntax`, `text`, `comment`, `refname` | the syntax tree, texts and names as written |
| `state`, `props`, `names`, `layered` | the element graph and its tables |
| `shape`, `lower_*` | lowering: what graph a syntax tree stands for, and the code that builds it |
| `resolution`, `shadow`, `rstate`, `rget`, `rgraph`, `rpure`, `misses`, `resolver_*` | name resolution |
| `linking`, `linker`, `link_search`, `checks` | linking the references of a graph, and reporting |
| `ids`, `naming_ids`, `assign_*`, `apply_ids`, `id_names`, `lib_names` | element ids |
| `model_build`, `compact`, `artifact`, `shadowing`, `equivalence` | building models, what is written of them, and what a recorded library leaves the same |
| `cache_format`, `libcache`, `scope_table` | stored forms of a library |
| `metamodel`, `derived_table`, `derive_*`, `derived`, `implied`, `closures`, `resolved` | derived properties |
| `elements`, `accessors`, `heritage`, `navigate`, `queries`, `expose`, `constraints`, `satisfaction` | queries |

Contracts are stated over views: `BV` is a graph, `RV` a graph with the state
of name resolution, `LV` a graph being linked, `DV` a resolved graph with its
metamodel. Public proof functions named `law_*` state what holds across
functions.

The metamodel's tables are data: functions that read them take a `Metamodel`.
So is what the walks over heritage and imports find: a `Derivation` takes it as
`Closures`.

A library is resolved on its own: what is recorded of it is the outcome of every
reference, with the top-level names that the search for it missed. A build
replays these outcomes beside the user's units, and resolves a reference afresh
where the model introduces a name that it missed. A cache holds such a recording
and spares resolving the library again; nothing else depends on it. Where the
user's top level could capture a library reference, everything is searched for.

`app/` turns the compact form into JSON and keeps library caches on disk.
`tests/` runs the library on small models.
