pub mod amount;
pub mod course_nft;
pub mod errors;
pub mod identity;
pub mod syllabus_nft;
pub mod vault;
