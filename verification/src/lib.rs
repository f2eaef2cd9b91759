pub mod camera;
pub mod decode;
pub mod gltf;
pub mod json;
pub mod math;
pub mod renderable;
pub mod scene;
