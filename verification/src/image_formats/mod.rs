pub mod bip;
pub mod common_image;
pub mod gim;
pub mod klz;
pub mod ogdt;
pub mod prt;
pub mod pvr;
pub mod tim;
pub mod tim2;
