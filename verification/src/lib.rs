//! Node graphs that describe a voxel world: what they are made of, when they are
//! valid, how they are evaluated chunk by chunk, and how an editor changes them.
//!
//! Numbers of single precision are carried by their bits. Where evaluation needs
//! arithmetic on them, it stops, says what is to be computed from what, and goes on
//! with the result it is handed.

// Values and identities.
pub mod ids;
pub mod scalar;
pub mod shared;
pub mod slots;
pub mod sort;
pub mod text;
pub mod voxel;

// Graphs: pins, nodes, edges, and what makes a graph valid.
pub mod boundary;
pub mod connection_laws;
pub mod cycle;
pub mod default_laws;
pub mod diagnostic;
pub mod edge;
pub mod error;
pub mod graph;
pub mod index;
pub mod node;
pub mod order;
pub mod params;
pub mod pin;
pub mod prefab;
pub mod soundness;
pub mod validate;

// References between graphs.
pub mod crossgraph;
pub mod domain_laws;
pub mod library;
pub mod resolve;

// Chunks, columns and fields.
pub mod chunk;
pub mod column;
pub mod context;
pub mod field;
pub mod fraction;
pub mod number_laws;
pub mod scatter;

// Per-column evaluation.
pub mod bands;
pub mod column_cache;
pub mod column_eval;
pub mod column_laws;
pub mod column_node_laws;
pub mod eval_error;
pub mod upstream;

// Whole-chunk evaluation.
pub mod cache;
pub mod eval;
pub mod eval_laws;
pub mod eval_model;
pub mod fills;
pub mod heightmap;
pub mod library_kernel;
pub mod node_laws;
pub mod operation;
pub mod place;
pub mod river;
pub mod scalar_params;
pub mod scan;
pub mod slope_refine;
pub mod surface_laws;

// Foliage.
pub mod detail;
pub mod detail_eval;
pub mod detail_laws;
pub mod detail_node_laws;
pub mod foliage;
pub mod foliage_laws;

// Features: structures and trees.
pub mod canopy;
pub mod feature;
pub mod feature_laws;
pub mod feature_share;
pub mod feature_stamp;
pub mod placement_laws;
pub mod skeleton;
pub mod tree_laws;

// Worlds: zones, biomes and how they compose.
pub mod biome_laws;
pub mod border;
pub mod border_laws;
pub mod compose;
pub mod composite;
pub mod ground_laws;
pub mod inspect;
pub mod inspect_laws;
pub mod sampling_laws;
pub mod sources;
pub mod terrain_laws;
pub mod world;
pub mod world_chunk;
pub mod world_ids;
pub mod world_laws;
pub mod world_resolve;

// Authored content.
pub mod assets;
pub mod assets_resolve;
pub mod example;
pub mod watch;

// The editor.
pub mod badges;
pub mod canvas;
pub mod canvas_edit;
pub mod canvas_laws;
pub mod catalog;
pub mod edit_laws;
pub mod editor;
pub mod editor_laws;
pub mod form;
pub mod form_laws;
pub mod form_lists;
pub mod listing_laws;
pub mod palette;
