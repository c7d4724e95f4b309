use gridwrap::terminal::Colorizable;
use gridwrap::terminal::TerminalColor;

#[test]
fn each_colour_has_its_escape_code() {
    assert_eq!(TerminalColor::Green.escape_code(), "\x1b[32m");
    assert_eq!(TerminalColor::Yellow.escape_code(), "\x1b[33m");
    assert_eq!(TerminalColor::Red.escape_code(), "\x1b[31m");
    assert_eq!(TerminalColor::Blue.escape_code(), "\x1b[34m");
    assert_eq!(TerminalColor::Magenta.escape_code(), "\x1b[35m");
    assert_eq!(TerminalColor::Default.escape_code(), "\x1b[39m");
}

#[test]
fn coloured_text_ends_in_the_default_colour() {
    assert_eq!("done".to_string().colorize(TerminalColor::Green), "\x1b[32mdone\x1b[39m");
    assert_eq!(String::new().colorize(TerminalColor::Default), "\x1b[39m\x1b[39m");
}
