# spatial_bench_benchers

Benchmark drivers for spatial-bench, for the Rust nearest-neighbour libraries
kd-tree, kdtree, kiddo (5.x and 6), neighbourhood and spade.

- `src/` is the verified library (Verus): the SBDS dataset format
  (`dataset`), the order of strings and string pairs (`text_order`),
  registration matching and listing (`registry`), the case loop and exit
  codes of a driver (`harness`), the generator's command line (`generator`)
  and how the kiddo drivers read a case's tags (`kiddo_config`).
- `app/` holds the drivers themselves: the process, the dataset generator,
  the libraries under test (all on floating-point coordinates) and the
  measured loops, which call the library for every decision.
- `tests/` exercises the library on concrete values.
