use bufrw::{BufReaderWriter, MemoryStream, ReadStream, SeekFrom, Stream};
use rand::Rng;

/// A stream that is only borrowed, so that it can be looked at once the adapter
/// is gone.
struct Borrowed<'a>(&'a mut MemoryStream);

impl Stream for Borrowed<'_> {
    type Error = bufrw::OutOfRange;

    fn write(&mut self, buf: &[u8]) -> Result<usize, Self::Error> {
        self.0.write(buf)
    }

    fn seek(&mut self, pos: SeekFrom) -> Result<u64, Self::Error> {
        self.0.seek(pos)
    }

    fn flush(&mut self) -> Result<(), Self::Error> {
        self.0.flush()
    }
}

impl ReadStream for Borrowed<'_> {
    fn read(&mut self, buf: &mut [u8]) -> Result<usize, Self::Error> {
        self.0.read(buf)
    }
}

/// An adapter that flushes unwritten data when it goes out of scope and
/// swallows the error, if there is one.
struct Scoped<T: Stream>(BufReaderWriter<T>);

impl<T: Stream> Drop for Scoped<T> {
    fn drop(&mut self) {
        let _ = self.0.flush_if_dirty();
    }
}

fn random_bytes(len: usize) -> Vec<u8> {
    let mut rng = rand::rng();
    let mut data = vec![0u8; len];
    for v in data.iter_mut() {
        *v = rng.random();
    }
    data
}

#[test]
fn test_seek_end_then_write() {
    let mut data = MemoryStream::new(vec![]);

    assert_eq!(data.write(b"Yoshi").unwrap(), 5);
    data.set_position(0);

    let mut buf = BufReaderWriter::new(data);

    let n = buf.seek(SeekFrom::End(-3)).unwrap();
    assert_eq!(n, 2);

    buf.write_all(b"Yoshi").unwrap();
    assert!(buf.buffer().is_dirty());
    let n = buf.seek(SeekFrom::Start(0)).unwrap();
    assert_eq!(n, 0);

    let mut bytes = [0u8; 7];
    buf.read_exact(bytes.as_mut_slice()).unwrap();
    assert_eq!(&bytes, b"YoYoshi");
}

#[test]
fn test_seek_current_negative_too_far() {
    let mut data = MemoryStream::new(vec![]);

    assert_eq!(data.write(b"Yoshi").unwrap(), 5);
    data.set_position(0);

    let mut buf = BufReaderWriter::new(data);

    assert_eq!(buf.position(), 0);
    assert!(matches!(buf.stream_position(), Ok(0)));

    let result = buf.seek(SeekFrom::Current(-6));
    assert!(result.is_err());
    assert!(matches!(result, Err(bufrw::Error::InvalidSeek)));

    assert_eq!(buf.position(), 0);
    assert!(matches!(buf.stream_position(), Ok(0)));
}

#[test]
fn test_seek_current_forward() {
    let mut rng = rand::rng();
    let mut buf = BufReaderWriter::new(MemoryStream::new(vec![]));
    let buf_capacity = buf.capacity();

    buf.inner_mut().get_mut().resize(buf_capacity * 4, 0u8);
    for v in buf.inner_mut().get_mut() {
        *v = rng.random();
    }

    let expected = buf.inner().get_ref().to_vec();

    let mut c = [0u8];
    buf.read_exact(&mut c).unwrap();
    assert_eq!(c[0], expected[0]);

    let n = buf.seek(SeekFrom::Current(1)).unwrap();
    assert_eq!(n, 2);

    buf.read_exact(&mut c).unwrap();
    assert_eq!(c[0], expected[2]);

    // Seek past buffer
    let n = buf.seek(SeekFrom::Current(buf_capacity as i64)).unwrap();
    assert_eq!(n, buf_capacity as u64 + 3);

    buf.read_exact(&mut c).unwrap();
    assert_eq!(c[0], expected[buf_capacity + 3])
}

#[test]
fn test_seek_current_at_buffer_boundary() {
    let mut rng = rand::rng();
    let mut buf = BufReaderWriter::new(MemoryStream::new(vec![]));
    let buf_capacity = buf.capacity();

    // Fill the underlying source with some random data
    buf.inner_mut().get_mut().resize(buf_capacity + buf_capacity / 2, 0u8);
    for v in buf.inner_mut().get_mut() {
        *v = rng.random();
    }

    // Clone it to have access to it without borrow problems
    let mut expected = buf.inner().get_ref().to_vec();

    let mut c = [0u8];
    buf.read_exact(&mut c).unwrap();
    assert_eq!(c[0], expected[0]);
    assert_eq!(buf.buffer().is_dirty(), false);
    assert_eq!(buf.buffer().num_valid_bytes(), buf_capacity);
    assert_eq!(buf.buffer().num_readable_bytes_left(), buf_capacity - 1);
    assert_eq!(buf.buffer().num_writable_bytes_left(), buf_capacity - 1);
    assert_eq!(buf.position(), 1);

    let n = buf.seek(SeekFrom::Current(buf_capacity as i64 - 2)).unwrap();
    assert_eq!(n, buf_capacity as u64 - 1);
    assert_eq!(buf.buffer().is_dirty(), false);
    assert_eq!(buf.buffer().num_valid_bytes(), buf_capacity);
    assert_eq!(buf.buffer().num_readable_bytes_left(), 1);
    assert_eq!(buf.buffer().num_writable_bytes_left(), 1);

    // This read_exact should trigger a refill as it crosses the buffer boundary
    let mut c = [0u8; 2];
    buf.read_exact(&mut c).unwrap();
    assert_eq!(&c, &expected[buf_capacity - 1..buf_capacity + 1]);
    assert_eq!(buf.buffer().is_dirty(), false);
    assert_eq!(buf.buffer().num_valid_bytes(), buf_capacity / 2);
    assert_eq!(buf.buffer().num_readable_bytes_left(), buf_capacity / 2 - 1);
    assert_eq!(buf.buffer().num_writable_bytes_left(), buf_capacity - 1);

    // Seek back to before reading the 2 bytes
    let n = buf.seek(SeekFrom::Current(-2)).unwrap();
    assert_eq!(n, buf_capacity as u64 - 1);
    assert_eq!(buf.buffer().is_dirty(), false);
    assert_eq!(buf.buffer().num_valid_bytes(), 0);
    assert_eq!(buf.buffer().num_readable_bytes_left(), 0);
    assert_eq!(buf.buffer().num_writable_bytes_left(), buf_capacity);

    let c2 = [c[0].wrapping_add(1), c[1].wrapping_add(1)];

    buf.write_all(&c2).unwrap();
    assert_eq!(buf.buffer().is_dirty(), true);
    assert_eq!(buf.buffer().num_valid_bytes(), 2);
    assert_eq!(buf.buffer().num_readable_bytes_left(), 0);
    assert_eq!(buf.buffer().num_writable_bytes_left(), buf_capacity - 2);
    expected[n as usize] = c2[0];
    expected[n as usize + 1] = c2[1];

    // Seek back to before reading the 2 bytes
    let n = buf.seek(SeekFrom::Current(-2)).unwrap();
    assert_eq!(n, buf_capacity as u64 - 1);
    assert_eq!(buf.buffer().is_dirty(), true);
    assert_eq!(buf.buffer().num_valid_bytes(), 2);
    assert_eq!(buf.buffer().num_readable_bytes_left(), 2);
    assert_eq!(buf.buffer().num_writable_bytes_left(), buf_capacity);

    let n = buf.seek(SeekFrom::Current(-2)).unwrap();
    assert_eq!(n, buf_capacity as u64 - 3);
    assert_eq!(buf.buffer().is_dirty(), false); // a dump should have been done
    assert_eq!(buf.buffer().num_valid_bytes(), 0);
    assert_eq!(buf.buffer().num_readable_bytes_left(), 0);
    assert_eq!(buf.buffer().num_writable_bytes_left(), buf_capacity);

    let mut c = vec![0u8; 4];
    buf.read_exact(&mut c).unwrap();
    assert_eq!(&c, &expected[buf_capacity - 3..buf_capacity + 1]);
    assert_eq!(buf.buffer().is_dirty(), false);
    assert_eq!(
        buf.buffer().num_valid_bytes(),
        expected.len() - (buf_capacity - 3)
    );
    assert_eq!(
        buf.buffer().num_readable_bytes_left(),
        buf.buffer().num_valid_bytes() - 4
    );
    assert_eq!(buf.buffer().num_writable_bytes_left(), buf_capacity - 4);

    buf.flush().unwrap();
    assert_eq!(buf.inner().get_ref(), &expected);
}

#[test]
fn test_drop_flushes() {
    let mut cursor = MemoryStream::new(vec![]);
    let mut buf = Scoped(BufReaderWriter::new(Borrowed(&mut cursor)));

    assert_eq!(buf.0.position(), 0);
    assert!(matches!(buf.0.stream_position(), Ok(0)));

    assert_eq!(buf.0.buffer().is_dirty(), false);
    assert_eq!(buf.0.buffer().num_readable_bytes_left(), 0);
    assert_eq!(buf.0.position(), 0);

    let data = b"Eco Dome Aldani";
    buf.0.write_all(data).unwrap();

    assert_eq!(buf.0.buffer().is_dirty(), true);
    assert_eq!(buf.0.buffer().num_readable_bytes_left(), 0);
    assert_eq!(buf.0.position(), data.len() as u64);

    // Nothing was actually written yet
    assert_eq!(buf.0.inner().0.position(), 0);

    drop(buf);

    assert_eq!(cursor.position(), data.len() as u64);
    let s = String::from_utf8(cursor.into_inner()).unwrap();
    assert_eq!(s.as_bytes(), data);
}

#[test]
fn write_more_than_buffer_capacity() {
    {
        // First, the simple case, where we never wrote not read anything
        // thus the buffer is empty

        let mut buf = BufReaderWriter::new(MemoryStream::new(vec![]));

        assert_eq!(buf.buffer().is_dirty(), false);
        assert_eq!(buf.buffer().num_valid_bytes(), 0);

        let data = random_bytes(buf.capacity());

        // Check that nothing was written in the buffer,
        // instead we wrote directly to the source
        buf.write_all(&data).unwrap();
        assert_eq!(buf.buffer().is_dirty(), false);
        assert_eq!(buf.buffer().num_valid_bytes(), 0);
        assert_eq!(buf.inner().get_ref(), &data);
    }

    {
        // We wrote something before trying a write
        // with >= capacity

        let mut buf = BufReaderWriter::new(MemoryStream::new(vec![]));

        assert_eq!(buf.buffer().is_dirty(), false);
        assert_eq!(buf.buffer().num_valid_bytes(), 0);

        let mut data = random_bytes(buf.capacity() + 50);

        let (first_write, second_write) = data.split_at_mut(50);

        buf.write_all(first_write).unwrap();

        assert_eq!(buf.buffer().is_dirty(), true);
        assert_eq!(buf.buffer().num_valid_bytes(), 50);
        assert!(buf.inner().get_ref().is_empty());

        buf.write_all(second_write).unwrap();
        // The buffer has been dumped
        assert_eq!(buf.buffer().is_dirty(), false);
        assert_eq!(buf.buffer().num_valid_bytes(), 0);
        assert_eq!(buf.inner().get_ref(), &data);
    }
}

#[test]
fn read_more_than_buffer_capacity() {
    {
        // First, the simple case, where we never wrote not read anything
        // thus the buffer is empty

        let mut rng = rand::rng();
        let mut buf = BufReaderWriter::new(MemoryStream::new(vec![]));
        let buf_capacity = buf.capacity();
        let n = 4;

        buf.inner_mut().get_mut().resize(buf_capacity * 4, 0u8);
        for v in buf.inner_mut().get_mut() {
            *v = rng.random();
        }

        assert_eq!(buf.buffer().is_dirty(), false);
        assert_eq!(buf.buffer().num_valid_bytes(), 0);

        let mut request = vec![0u8; buf.capacity()];
        for i in 0..n {
            buf.read_exact(&mut request).unwrap();
            assert_eq!(buf.buffer().is_dirty(), false);
            assert_eq!(buf.buffer().num_valid_bytes(), 0);
            assert_eq!(
                &buf.inner().get_ref()[i * buf_capacity..(i + 1) * buf_capacity],
                &request
            );
        }
    }

    {
        // We read a small thing before trying a big read

        let mut rng = rand::rng();
        let mut buf = BufReaderWriter::new(MemoryStream::new(vec![]));
        let buf_capacity = buf.capacity();

        buf.inner_mut().get_mut().resize((buf_capacity * 4) + 77, 0u8);
        for v in buf.inner_mut().get_mut() {
            *v = rng.random();
        }

        assert_eq!(buf.buffer().is_dirty(), false);
        assert_eq!(buf.buffer().num_valid_bytes(), 0);

        let mut first_request = vec![0u8; 104];
        buf.read_exact(&mut first_request).unwrap();
        assert_eq!(buf.buffer().is_dirty(), false);
        assert_eq!(buf.buffer().num_valid_bytes(), buf_capacity);
        assert_eq!(
            buf.buffer().num_readable_bytes_left(),
            buf_capacity - first_request.len()
        );
        assert_eq!(&buf.inner().get_ref()[..104], &first_request);

        let cloned_data = buf.inner().get_ref().to_vec();
        let mut request = vec![0u8; buf.inner().get_ref().len() - first_request.len()];
        for (chunk_to_read, expected) in request
            .chunks_mut(buf_capacity)
            .zip(cloned_data[first_request.len()..].chunks(buf_capacity))
        {
            buf.read_exact(chunk_to_read).unwrap();
            assert_eq!(buf.buffer().is_dirty(), false);
            assert_eq!(&chunk_to_read, &expected);
        }
    }

    {
        // We write a small thing before trying a big read

        let mut rng = rand::rng();
        let mut buf = BufReaderWriter::new(MemoryStream::new(vec![]));
        let buf_capacity = buf.capacity();

        buf.inner_mut().get_mut().resize((buf_capacity * 4) + 77, 0u8);
        for v in buf.inner_mut().get_mut() {
            *v = rng.random();
        }

        assert_eq!(buf.buffer().is_dirty(), false);
        assert_eq!(buf.buffer().num_valid_bytes(), 0);

        let mut cloned_data = buf.inner().get_ref().to_vec();
        let mut data_to_write = vec![0u8; 77];
        for v in data_to_write.iter_mut() {
            *v = rng.random();
        }
        buf.write_all(&data_to_write).unwrap();
        assert_eq!(buf.buffer().is_dirty(), true);
        cloned_data[..data_to_write.len()].copy_from_slice(&data_to_write);
        assert_eq!(buf.position(), data_to_write.len() as u64);

        let mut request = vec![0u8; cloned_data.len() - data_to_write.len()];
        for (chunk_to_read, expected) in request
            .chunks_mut(buf_capacity)
            .zip(cloned_data[data_to_write.len()..].chunks(buf_capacity))
        {
            buf.read_exact(chunk_to_read).unwrap();
            assert_eq!(buf.buffer().is_dirty(), false);
            assert_eq!(&chunk_to_read, &expected);
        }
        assert_eq!(buf.inner().get_ref(), &cloned_data);
    }

    {
        // We read and write a small thing before trying a big read

        let mut rng = rand::rng();
        let mut buf = BufReaderWriter::new(MemoryStream::new(vec![]));
        let buf_capacity = buf.capacity();

        buf.inner_mut().get_mut().resize((buf_capacity * 4) + 77, 0u8);
        for v in buf.inner_mut().get_mut() {
            *v = rng.random();
        }

        assert_eq!(buf.buffer().is_dirty(), false);
        assert_eq!(buf.buffer().num_valid_bytes(), 0);

        let mut first_request = vec![0u8; 104];
        buf.read_exact(&mut first_request).unwrap();
        assert_eq!(buf.buffer().is_dirty(), false);
        assert_eq!(buf.buffer().num_valid_bytes(), buf_capacity);
        assert_eq!(
            buf.buffer().num_readable_bytes_left(),
            buf_capacity - first_request.len()
        );
        assert_eq!(
            &buf.inner().get_ref()[..first_request.len()],
            &first_request
        );
        assert_eq!(buf.position(), first_request.len() as u64);

        let mut cloned_data = buf.inner().get_ref().to_vec();
        let mut data_to_write = vec![0u8; 77];
        for v in data_to_write.iter_mut() {
            *v = rng.random();
        }
        buf.write_all(&data_to_write).unwrap();
        assert_eq!(buf.buffer().is_dirty(), true);
        cloned_data[first_request.len()..data_to_write.len() + first_request.len()]
            .copy_from_slice(&data_to_write);
        assert_eq!(
            buf.position(),
            first_request.len() as u64 + data_to_write.len() as u64
        );

        let mut request =
            vec![0u8; cloned_data.len() - first_request.len() - data_to_write.len()];
        for (chunk_to_read, expected) in request
            .chunks_mut(buf_capacity)
            .zip(cloned_data[first_request.len() + data_to_write.len()..].chunks(buf_capacity))
        {
            buf.read_exact(chunk_to_read).unwrap();
            assert_eq!(buf.buffer().is_dirty(), false);
            assert_eq!(&chunk_to_read, &expected);
        }
        assert_eq!(buf.inner().get_ref(), &cloned_data);
    }
}
