//! Grayscale intensity transforms, their histograms, and the editable
//! pipeline of transforms that the visualizer applies to an image.

pub mod channel;
pub mod gray_image;
pub mod histogram;
pub mod image_picker;
pub mod intensity_map;
pub mod loaded_image;
pub mod negative;
pub mod node_list;
pub mod pipeline;
pub mod tab_title;
pub mod transform_kind;
pub mod tree_actions;
