//! 3D content data.

pub use self::geometry::GeometryMesh;
pub use self::material::LambertData;
pub use self::material::Material;
pub use self::material::ShadingData;
pub use self::mesh::Mesh;
pub use self::scene::GeometryMeshIndex;
pub use self::scene::MaterialIndex;
pub use self::scene::MeshIndex;
pub use self::scene::Scene;
pub use self::scene::TextureIndex;
pub use self::texture::DecodedImage;
pub use self::texture::Texture;
pub use self::texture::WrapMode;

mod geometry;
mod material;
mod mesh;
mod scene;
mod texture;
