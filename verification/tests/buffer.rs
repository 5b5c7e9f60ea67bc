use rust_expander::buffer::KeyBuffer;

#[test]
fn test_push_and_content() {
    let mut buf = KeyBuffer::new(5);
    buf.push('a');
    buf.push('b');
    buf.push('c');
    assert_eq!(buf.content(), "abc");
}

#[test]
fn test_overflow() {
    let mut buf = KeyBuffer::new(3);
    buf.push('a');
    buf.push('b');
    buf.push('c');
    buf.push('d');
    assert_eq!(buf.content(), "bcd");
    assert_eq!(buf.len(), 3);
}

#[test]
fn test_ends_with() {
    let mut buf = KeyBuffer::new(10);
    buf.push('h');
    buf.push('e');
    buf.push('l');
    buf.push('l');
    buf.push('o');
    assert!(buf.ends_with("llo"));
    assert!(buf.ends_with("hello"));
    assert!(!buf.ends_with("hell"));
    assert!(!buf.ends_with("hello!"));
    assert!(buf.ends_with(""));
}

#[test]
fn test_pop() {
    let mut buf = KeyBuffer::new(3);
    buf.push('a');
    buf.push('b');
    assert_eq!(buf.pop(), Some('b'));
    assert_eq!(buf.content(), "a");
    buf.push('c');
    assert_eq!(buf.content(), "ac");
    assert_eq!(buf.pop(), Some('c'));
    assert_eq!(buf.pop(), Some('a'));
    assert_eq!(buf.pop(), None);
}

#[test]
fn test_clear() {
    let mut buf = KeyBuffer::new(3);
    buf.push('a');
    buf.clear();
    assert_eq!(buf.len(), 0);
    assert!(buf.is_empty());
    assert_eq!(buf.content(), "");
}

#[test]
fn test_resize_expand() {
    let mut buf = KeyBuffer::new(3);
    buf.push('a');
    buf.push('b');
    buf.resize(5);
    assert_eq!(buf.capacity(), 5);
    assert_eq!(buf.len(), 2);
    assert_eq!(buf.content(), "ab");
    buf.push('c');
    buf.push('d');
    assert_eq!(buf.content(), "abcd");
}

#[test]
fn test_resize_shrink() {
    let mut buf = KeyBuffer::new(5);
    buf.push('a');
    buf.push('b');
    buf.push('c');
    buf.push('d');
    buf.push('e');
    buf.resize(3);
    assert_eq!(buf.capacity(), 3);
    assert_eq!(buf.len(), 3);
    assert_eq!(buf.content(), "cde");
    buf.push('f');
    assert_eq!(buf.content(), "def");
}

#[test]
fn test_resize_shrink_with_wraparound() {
    let mut buf = KeyBuffer::new(3);
    buf.push('a');
    buf.push('b');
    buf.push('c');
    buf.push('d'); // buffer contains "bcd", head at 1
    buf.resize(2);
    assert_eq!(buf.capacity(), 2);
    assert_eq!(buf.len(), 2);
    assert_eq!(buf.content(), "cd");
    buf.push('e');
    assert_eq!(buf.content(), "de");
}

#[test]
fn test_resize_same_capacity() {
    let mut buf = KeyBuffer::new(3);
    buf.push('a');
    buf.resize(3);
    assert_eq!(buf.capacity(), 3);
    assert_eq!(buf.content(), "a");
}

#[test]
fn test_resize_empty_buffer() {
    let mut buf = KeyBuffer::new(5);
    buf.resize(10);
    assert_eq!(buf.capacity(), 10);
    assert_eq!(buf.len(), 0);
    assert_eq!(buf.content(), "");
    buf.push('x');
    assert_eq!(buf.content(), "x");
}

#[test]
fn test_resize_to_zero() {
    let mut buf = KeyBuffer::new(3);
    buf.push('a');
    buf.push('b');
    buf.resize(0);
    assert_eq!(buf.capacity(), 0);
    assert_eq!(buf.len(), 0);
    assert_eq!(buf.content(), "");
    buf.push('c');
    assert_eq!(buf.len(), 0);
}

#[test]
fn test_write_content_to() {
    let mut buf = KeyBuffer::new(4);
    buf.push('w');
    buf.push('x');
    buf.push('y');
    buf.push('z');
    let mut out = String::new();
    buf.write_content_to(&mut out);
    assert_eq!(out, "wxyz");

    // Shrink and write again
    buf.resize(2);
    buf.write_content_to(&mut out);
    assert_eq!(out, "yz");
}
