pub mod top_n;
