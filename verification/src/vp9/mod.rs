//! VP9 video decoding.
pub mod adapt_laws;
pub mod bits;
pub mod block;
pub mod block_coefs;
pub mod block_laws;
pub mod block_modes;
pub mod block_trace;
pub mod bool_decoder;
pub mod coef_counts;
pub mod coef_laws;
pub mod coefs;
pub mod columns;
pub mod compressed;
pub mod compressed_laws;
pub mod context;
pub mod count_laws;
pub mod data;
pub mod decoder;
pub mod default_probs;

pub mod edge_filter;
pub mod edges;
pub mod header;
pub mod header_laws;
pub mod idct;
pub mod idct_laws;
pub mod inter_laws;
pub mod inter_modes;
pub mod inter_pred;
pub mod intra_laws;
pub mod intra_pred;
pub mod line_laws;
pub mod loop_laws;
pub mod loopfilter;
pub mod mc;
pub mod mc_laws;
pub mod mode_laws;
pub mod modes;
pub mod mv_laws;
pub mod mvs;
pub mod picture;
pub mod plane;
pub mod prob;
pub mod quant;
pub mod recon;
pub mod recon_laws;
pub mod refs;
pub mod superframe;
pub mod symbol_laws;
pub mod tiles;
pub mod tiling;
pub mod types;
pub mod uncompressed;
