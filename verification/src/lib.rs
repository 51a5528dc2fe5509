//! Loader and skinning core for text-encoded skeletal models: a tolerant
//! tokenizing parser, a joint/weight data model with referential invariants,
//! quaternion-based rigid transforms over fixed-point scalars, and the
//! linear-blend-skinning kernels for the bind pose and for animated skeletons.

pub mod fixed;
pub mod vecmath;
pub mod geom;
pub mod anim;
pub mod skin;
pub mod lex;
pub mod parse;
pub mod model;
pub mod laws;
