# graphics

The resource and render logic of a wgpu renderer, verified with Verus.

The library (`src/`) never touches the GPU. It hands out object ids and
records what the device must do as `DeviceCommand`s (buffers, textures,
samplers, bind groups, shader modules, pipelines); a render state returns
the `PassCommand`s a pass must perform. Each decision is stated in the
contracts: buffer layouts and offsets, batched and dynamic uniform arrays,
texture uploads, render-graph ordering, draw batching, material pipelines,
pipeline extraction as shaders load, shader metadata from a module's
bindings, and mesh vertex interleaving.

`app/` performs those commands with wgpu, reads shader files from disk,
sets up the window surface and its device, and holds what is floating point
(colours, viewports, cameras and their matrices, with glam).

Layout of `src/`:

- `device`, `flags`, `bytes`: the device model, bit flags, byte helpers
- `buffer`, `uniform`, `packed`, `storage`, `vertex`, `index`: GPU buffers
- `texture`, `render_texture`, `target`, `surface`: textures, samplers, targets
- `binding`, `shader`, `shader_import`, `shader_reflect`: bind groups, shader
  import (parsed and validated by naga) and shader metadata
- `pipeline`, `pipeline_extract`, `material`, `material_pipeline`: pipelines
- `graph`, `graph_resources`, `pass`, `draw`: the render graph and passes
- `mesh`, `mesh_asset`, `asset`, `extract`, `render_asset`, `handle`: assets
