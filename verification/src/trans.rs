pub mod count;
pub mod manipulation;
pub mod clamp;
pub mod sum;
pub mod dataframe;
pub mod resize;
pub mod index;
pub mod impute;
pub mod cast;
