//! Caches of decoded pages and textures, and the windows of pages kept near the reader.
pub mod prefetch;
pub mod decode_lru;
pub mod cpu_cache;
pub mod texture_lru;
pub mod gpu_cache;
pub mod gpu_uploader;
pub mod texture_index;
pub mod settings_adapter;
pub mod protection;
