pub mod bound_first;
pub mod callees;
pub mod calls;
pub mod candidate;
pub mod distinct;
pub mod ends;
pub mod expand;
pub mod fresh;
pub mod hygiene;
pub mod imul;
pub mod imul_laws;
pub mod laws;
pub mod lets;
pub mod meaning;
pub mod meaning_calls;
pub mod meaning_lets;
pub mod meaning_stmts;
pub mod module_ids;
pub mod pass;
pub mod pass_laws;
pub mod reads;
pub mod scan;
pub mod spliced;
pub mod stmt_laws;
pub mod subst;
