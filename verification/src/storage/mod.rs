pub mod access;
pub mod attrib;
pub mod dim_restriction;
pub mod way;
pub mod edge;
pub mod edge_node;
pub mod turn_edge;
pub mod node;
pub mod pod64;
pub mod idindex;
pub mod header;
pub mod table_index;
pub mod morton;
pub mod spatial;
pub mod extsort;
pub mod btree;
