# city_sim

The rules of a small city builder, verified with Verus: the tile and chunk grid, compass
directions, the terrain heightmaps and how editing a tile reshapes its neighbours, road and
building placement, route finding over the road network, vehicles shopping and coming home,
the game clock, mesh index layouts, wall planning and the erosion schedule.

- `src/` is the verified library. Types that hold heights are generic over the height type, so
  the library never touches floating point.
- `tests/` runs the library on concrete cases.
- `app/` is the game around it: the Bevy plugins and systems, terrain noise, world-space
  geometry, texture choice, save files and the shader constants file.
