use ruffer::{RingBuffer, RingBufferError, DEFAULT_CAPACITY};

#[test]
fn create_ringbuffer_default() {
    let ruffer = RingBuffer::new();
    assert_eq!(ruffer.capacity(), DEFAULT_CAPACITY);
}

#[test]
fn create_ringbuffer_with_capacity() {
    let ruffer = RingBuffer::with_capacity(1024);
    assert_eq!(ruffer.capacity(), 1024);
}

#[test]
fn is_empty() {
    let ruffer = RingBuffer::with_capacity(1024);
    assert!(ruffer.empty());
}

#[test]
fn to_vec_zero_tail() {
    let mut ruffer = RingBuffer::with_capacity(16);
    let write_data = "data".as_bytes();
    assert!(ruffer.write(write_data).is_ok());
    let res = ruffer.to_vec();
    assert_eq!(res.len(), 4);
    assert_eq!(res, write_data.to_vec());
}

#[test]
fn to_vec_nonzero_tail() {
    let mut ruffer = RingBuffer::with_capacity(4);
    let write_data = "thisisatest    data".as_bytes();
    assert!(ruffer.write(write_data).is_ok());
    let res = ruffer.to_vec();
    assert_eq!(res.len(), 4);
    assert_eq!(res, write_data[15..19].to_vec());
}

#[test]
fn pop_bytes_nowrap() {
    let mut ruffer = RingBuffer::with_capacity(16);
    let write_data = "data".as_bytes();
    let read_data = &mut [0u8; 16];
    assert!(ruffer.write(write_data).is_ok());
    assert_eq!(ruffer.pop_bytes(2), 2);
    assert_eq!(ruffer.len(), 2);
    assert!(ruffer.read(read_data).is_ok());
    assert_eq!(read_data[0..2].to_vec(), write_data[2..4].to_vec())
}

#[test]
fn pop_bytes_wrap() {
    let mut ruffer = RingBuffer::with_capacity(4);
    let write_data = "data123".as_bytes();
    let read_data = &mut [0u8; 16];
    assert!(ruffer.write(write_data).is_ok());
    assert_eq!(ruffer.pop_bytes(2), 2);
    assert_eq!(ruffer.len(), 2);
    assert!(ruffer.read(read_data).is_ok());
    assert_eq!(read_data[0..2].to_vec(), write_data[5..7].to_vec())
}

#[test]
fn write_less_than_capacity() {
    let mut ruffer = RingBuffer::with_capacity(16);
    let data = [1u8; 5];
    let res = ruffer.write(&data);
    assert!(res.is_ok());
    assert_eq!(res.unwrap(), 5);
    assert!(!ruffer.empty());
    assert_eq!(ruffer.len(), 5);
}

#[test]
fn write_equal_to_capacity() {
    let mut ruffer = RingBuffer::with_capacity(16);
    let data = [1u8; 16];
    let res = ruffer.write(&data);
    assert!(res.is_ok());
    assert_eq!(res.unwrap(), 16);
    assert!(!ruffer.empty());
    assert_eq!(ruffer.len(), 16);
}

#[test]
fn write_greater_than_capacity() {
    let mut ruffer = RingBuffer::with_capacity(16);
    let data = [1u8; 32];
    let res = ruffer.write(&data);
    assert!(res.is_ok());
    assert_eq!(res.unwrap(), 32);
    assert!(!ruffer.empty());
    assert_eq!(ruffer.len(), 16);
}

#[test]
fn read_empty() {
    let mut ruffer = RingBuffer::with_capacity(16);
    let data = &mut [0u8; 16];
    let res = ruffer.read(data);
    assert!(res.is_ok());
    assert_eq!(res.unwrap(), 0);
}

#[test]
fn write_less_than_capacity_then_read() {
    let mut ruffer = RingBuffer::with_capacity(16);
    let write_data = "test".as_bytes();
    let read_data = &mut [0u8; 16];

    assert!(ruffer.write(write_data).is_ok());
    let res = ruffer.read(read_data);
    assert!(res.is_ok());
    assert_eq!(res.unwrap(), 4);
    assert_eq!(&read_data[0..4], write_data);
}

#[test]
fn write_equal_to_capacity_then_read() {
    let mut ruffer = RingBuffer::with_capacity(4);
    let write_data = "test".as_bytes();
    let read_data = &mut [0u8; 16];

    assert!(ruffer.write(write_data).is_ok());
    let res = ruffer.read(read_data);
    assert!(res.is_ok());
    assert_eq!(res.unwrap(), 4);
    assert_eq!(&read_data[0..4], write_data);
}

#[test]
fn write_greater_than_capacity_then_read() {
    let mut ruffer = RingBuffer::with_capacity(4);
    let write_data = "testgreater".as_bytes();
    let read_data = &mut [0u8; 16];

    assert!(ruffer.write(write_data).is_ok());
    let res = ruffer.read(read_data);
    assert!(res.is_ok());
    assert_eq!(res.unwrap(), 4);
    assert_eq!(&read_data[0..4], &write_data[7..11]);
}

#[test]
fn resize_smaller_than_original() {
    let mut ruffer = RingBuffer::with_capacity(16);
    let write_data = "thisisatest".as_bytes();
    let read_data = &mut [0u8; 16];

    assert!(ruffer.write(write_data).is_ok());
    ruffer.resize(4);
    let res = ruffer.read(read_data);
    assert!(res.is_ok());
    assert_eq!(res.unwrap(), 4);
    assert_eq!(&read_data[0..4], &write_data[7..11]);
}

#[test]
fn resize_bigger_than_original() {
    let mut ruffer = RingBuffer::with_capacity(16);
    let write_data = "thisisatest".as_bytes();
    let read_data = &mut [0u8; 16];

    assert!(ruffer.write(write_data).is_ok());
    ruffer.resize(32);
    let res = ruffer.read(read_data);
    assert!(res.is_ok());
    assert_eq!(res.unwrap(), 11);
    assert_eq!(&read_data[0..11], &write_data[0..11]);
}

#[test]
fn disable_overwrite() {
    let mut ruffer = RingBuffer::with_capacity(16);
    let write_data = "thisisatest".as_bytes();
    ruffer.set_overwrite(false);
    assert!(!ruffer.overwrite());
    let res = ruffer.write(write_data);
    assert!(res.is_ok());
    assert_eq!(res.unwrap(), write_data.len());
    let res = ruffer.write(write_data);
    assert!(res.is_ok());
    assert_eq!(res.unwrap(), 5);
    let res = ruffer.write(write_data);
    assert!(res.is_err());
    assert_eq!(res.unwrap_err(), RingBufferError::WouldBlock);
}
