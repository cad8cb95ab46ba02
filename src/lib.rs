//! The material subsystem of a small real-time renderer: shader binding models,
//! materials that turn one draw of one object into a list of GPU commands, and a
//! name-keyed registry of shared materials with a distinguished default.

pub mod material;
pub mod material_manager;
pub mod shader;

pub use material::{BindingError, Channel, GpuCommand, MaterialKind, MaterialView, Matrixerial, UniformRole};
pub use material_manager::{ManagerView, MaterialHandle, MatrixerialManager};
pub use shader::{Shader, ShaderAttribute, ShaderUniform, ShaderView};
