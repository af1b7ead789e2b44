# wayvid

The verified core of a Wayland video-wallpaper daemon, written in Verus.

`src/` is the library. Every function in it carries a contract that Verus
proves:

- `config`, `pattern`, `core_types`: configuration values, their defaults,
  and the choice of per-output settings by output-name pattern.
- `texture`, `scene_textures`, `pkg`, `scene_types`, `we_project`,
  `workshop`, `steam`: Wallpaper Engine assets (TEX textures with LZ4 and
  DXT decoding, layer textures from TEX or ordinary image files, PKG
  archives, project files, workshop and Steam library layout) and the
  import of a project as a configuration.
- `memory`, `shared_decode`, `frame_timing`: memory accounting, the buffer
  pool, shared decoder bookkeeping and frame-skip hysteresis.
- `daemon`, `conflicts`, `niri`, `hdr`, `vulkan`, `capability`: the
  decisions the daemon takes (power transitions, IPC command targets,
  socket path, conflicting wallpaper managers, HDR names, Vulkan device and
  swapchain choices, compositor and session checks).
- `library`: the wallpaper library of the settings window, which holds
  each source once.
- `surface`, `registry`: when a layer surface may draw and when it sets
  up and releases its resources; which Wayland globals are bound, at which
  version.
- `text`: string helpers shared by the modules.

Calls into `lz4_flex`, `image`, `shellexpand` and the parts of `std` that vstd does
not specify (lowercasing, UTF-8 decoding, `Vec::capacity`,
`Path::file_name`, `Path::file_stem`) stand behind small trusted wrappers whose doc comments say what
is assumed of them.

`app/` is a command-line front end: it reads files and the environment,
parses YAML and JSON with serde, watches the configuration file, and prints
what the library decides. `tests/` exercises the library on concrete
values.
