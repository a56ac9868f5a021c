pub mod call_order;
pub mod callbacks;
pub mod finite;
pub mod harvest;
pub mod harvest_laws;
pub mod laws;
pub mod leaf;
pub mod leaf_laws;
pub mod literal;
pub mod occurs;
pub mod order;
pub mod page;
pub mod page_laws;
pub mod quiet;
pub mod refs;
pub mod slots;
pub mod source_laws;
pub mod state;
pub mod state_laws;
pub mod style;
pub mod style_laws;
pub mod value;
pub mod value_laws;
pub mod widget;
pub mod widget_laws;
