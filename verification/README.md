# nahlun_server

Server for river water levels and map tiles. The verified library (`src/`) holds
the parts that compute:

- `cache::items` — tile ids, kinds of cached data and cache keys, the names the
  disk layer stores them under, and reading those names back;
- `cache::record` — cached data and its on-disk record (encoded with `bincode`);
- `tile::address` — the ancestor path of a tile in the tile graph, the graph
  query for water levels, the URLs of land-tile sources and tile pixels;
- `tile::glb` — padding, buffer layout and binary chunk of generated `.glb`
  tiles, and the container written with `gltf`;
- `tile::zoom` — zoom levels of tile requests;
- `env` — start-up settings.

`app/` is the HTTP server around it: request handlers, graph-database queries,
the asynchronous two-layer cache, image fetching and the floating-point mesh
and glTF document work.
