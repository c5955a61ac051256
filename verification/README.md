# dormin

The logic of the dormin 3D editor as a verified library: the Verus
contracts in `src/` state what each function does, and Verus proves them.

- `util`, `number`: property paths cut at '/' and joined back, decimal
  indices read and written.
- `named`, `keyed`: lists of entries with unique names or ids (a material's
  uniforms, a shader's handles, the items of the tree widget).
- `resource`: the managers that load each resource once per name, with the
  queue of names for the loaders; references to resources by name.
- `scene`, `property`, `operation`: objects and scenes, their text
  properties (name, scripts) set by path, and the operations that change
  them, with undo and redo.
- `context`, `control`: the selection, and what the 3D view does on mouse
  and keyboard input.
- `factory`: objects and scenes with fresh random ids (through `uuid`).
- `property_node`, `property_box`: the tree of property widgets, in an
  arena, and the property box that adds and removes its nodes by path.
- `mesh`, `armature`, `shader`, `material`, `mesh_render`, `component`: the
  mesh and armature file formats, the shader description format,
  materials, frame buffers and the mesh render component.
- `texture`: textures, their images decoded from PNG files (through
  `png`) and the handle the graphics card gives them.
- `widget`, `view`: window configurations, and the decisions of the
  property and 3D views.
- `render_pass`, `render`: the objects to draw, grouped by shader, then by
  camera, gathered children first, each object's shader found through
  its renderer's material and the shader manager; the steps of a frame
  and where each draws; how a mesh is drawn with a shader and which
  texture unit each texture gets.
- `tree`: the tree widget of a scene's objects and where each item goes.
- `camera`: the camera of a scene, as far as the logic reads it.
- `container`: how the editor answers a change: which widget is told
  what, which mesh renderer is rebuilt, what is undone or redone.

`app/main.rs` is the program around the library: it reads files (scenes
and materials as JSON, through `rustc-serialize`), runs the resource
loaders, feeds keys to the view and performs the actions the library
decides in answer to a change. Vector and quaternion
arithmetic, the cameras' projections, the draggers, the meshes' geometry and the calls
to the graphics card work on floating point or through C libraries and
are not part of the library.
