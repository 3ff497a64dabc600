//! A small busybox-like toolbox: the decisions behind `pwd`, `echo`, `cat`,
//! `mkdir`, `rmdir`, `chmod`, `rm`, `touch`, `ls`, `ln`, `grep`, `cp` and
//! `mv`, each stated as a contract over the command line and over what the
//! file system reports.
pub mod command;
pub mod copy;
pub mod echo;
pub mod grep;
pub mod link;
pub mod listing;
pub mod mode;
pub mod numeral;
pub mod path;
pub mod rm;
pub mod text;
pub mod touch;
pub mod walk;
