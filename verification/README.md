# router

The verified core of a road routing engine built on OpenStreetMap data.

- `src/` is the library, written in Verus: its functions carry contracts that
  are proved, except a few small wrappers around std string, sort and map
  functions, whose contracts are stated from std's documentation and trusted.
  - `types`: countries, vehicle types and fixed-point decimals.
  - `polyline`: the encoded-polyline format for fixed-point coordinates.
  - `storage`: the records of the on-disk tables (ways, edges, edge nodes,
    turns, id index entries), their headers, the sparse key index, Morton
    keys, the sort-and-merge of sorted runs (kept in memory) and the layout
    of the spatial index.
  - `import_pbf`: reading OSM tags into way and node attributes, directed
    way entries, turn restrictions and the import settings.
  - `algorithm`: Dijkstra, A* and their bidirectional forms over any graph
    with costed edges, with proofs that they find cheapest routes.
  - `service`: profiles, speed configuration, edge and turn costs, the road
    graph of turns between edge nodes, the virtual start and goal of a
    search, and the integer steps of routes, matrices and isochrones
    (request checks, pair planning, trip totals, reached nodes).
  - `server`: the problem documents that errors are answered with.
- `app/` is ordinary Rust around it: floating-point geometry and travel
  times, configuration files, and the serialised shapes of API values.
- `tests/` runs the library on concrete values.
