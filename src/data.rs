pub mod fhr;
pub mod tensor;
