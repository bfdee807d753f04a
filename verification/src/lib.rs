//! A verified poster composition and text-layout engine.
//!
//! A poster is a fixed-size canvas holding a background, images, and text
//! blocks.  This crate holds the compositional core: depth ordering of
//! elements, object-fit scaling for images, rounded-rectangle outlines,
//! script classification, font-fallback selection, width-constrained text
//! wrapping and truncation, and the assembly of a complete drawing plan.
//! A rendering backend (rasterizer, font catalog, image decoder) consumes
//! the plan; it is a collaborator outside this crate.

pub mod color;
pub mod depth;
pub mod encode;
pub mod fontsel;
pub mod geometry;
pub mod layout;
pub mod metrics;
pub mod model;
pub mod plan;
pub mod script;
pub mod server_api;

pub use color::Color;
pub use color::parse_color;
pub use depth::sorted_elements;
pub use encode::data_url;
pub use encode::decode_data_url;
pub use encode::is_data_url;
pub use fontsel::FontCandidate;
pub use fontsel::font_candidates;
pub use fontsel::select_first_hit;
pub use geometry::FitPlacement;
pub use geometry::Ratio;
pub use geometry::compute_fit;
pub use metrics::FontMetrics;
pub use metrics::measure_text;
pub use metrics::measure_text_with_font;
pub use model::BackgroundElement;
pub use model::Element;
pub use model::ImageElement;
pub use model::ObjectFit;
pub use model::PosterConfig;
pub use model::PosterError;
pub use model::Radius;
pub use model::TextAlignType;
pub use model::TextDirectionType;
pub use model::TextElement;
pub use plan::DrawOp;
pub use plan::ElementData;
pub use plan::PosterGenerator;
pub use plan::RenderPlan;
pub use plan::build_plan;
pub use plan::plan_background;
pub use plan::plan_image;
pub use plan::plan_text;
pub use script::is_rtl_text;
pub use server_api::OutputFormat;
pub use server_api::PosterRequest;
pub use server_api::PosterResponse;
pub use server_api::poster_response;
