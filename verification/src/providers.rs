pub mod fs_provider;

pub use fs_provider::FsAudioProvider;
