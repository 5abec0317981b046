//! Core of a declarative UI toolkit, as a three-stage frame pipeline.
//!
//! Evaluation (`widget`, `evaluate`) expands lazy widget producers into a
//! tree of layout nodes. Layout (`solver`, `layout`) hands that tree's
//! styles to the external box-layout engine and pairs every render object
//! with its resolved absolute position and size, in paint order. Rendering
//! (`tess`, `render`) partitions the positioned objects into tessellated
//! geometry draws (cached by generator and size), text draws, and
//! hit-testable input regions.
pub mod evaluate;
pub mod layout;
pub mod render;
pub mod solver;
pub mod tess;
pub mod widget;
