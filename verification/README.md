# gpugen

A terrain generator that runs a compute shader on the GPU, callable from C.

- `src/` is the verified library: the world configuration (`Generator`),
  the buffer sizes and the per-chunk request handed to the GPU, the decoding
  of the readback into blocks (through `bytemuck`), and the debug text.
- `app/` is the GPU and FFI side: the wgpu device, buffers and pipeline, the
  worker threads and executor, and the `extern "C"` functions. It reads the
  compute shader from `shader.wgsl` at run time.
- `tests/` exercises the library.
