# hinaview

The verified core of HinaView, an image and archive viewer: what to open for a path,
which pages a document lists and how they pair into spreads, which pages to prefetch and
protect, a size-bounded cache of decoded pages and the bookkeeping of the textures held in
VRAM (with the pages to keep spared from eviction), bookmarks, the neighbour archive search,
locale resolution and the interface texts, the natural order of page and archive names,
the slideshow's per-frame decision, what a key command does, and the recognition of image
formats from their first bytes.

- `src/` is the library, verified with Verus. Calls into outside crates (`lru`,
  `imagesize`, `kamadak-exif`, `num_cpus`) and into the standard library's path, text
  and hashing functions go through small trusted wrappers whose contracts are stated next
  to them.
- `tests/` runs the library on concrete values.
- `app/` is a command-line program around the library: it reads the disk, ZIP archives,
  the language files and the configuration, and keeps positions and bookmarks in SQLite.
