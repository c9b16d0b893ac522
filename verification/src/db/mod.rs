pub mod char_create;
