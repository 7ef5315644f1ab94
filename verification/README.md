# reconstruction

A CGNE/CGNR image-reconstruction service: clients send ultrasound signals, the
server queues the requests, reconstructs images with the conjugate-gradient
solvers and writes them out as PNG and JSON files.

- `src/` — the verified library (Verus):
  - `models` — algorithms, image sizes and the geometry they fix (system matrix
    shape and file, signal segment length);
  - `dispatch` — request priorities, which job a request asks for, algorithm
    names, the server solvers' iteration budget;
  - `queue` — the server's request queue (over `priority_queue`): small images
    first, and the worker's next action;
  - `protocol` — fixed-size message framing and text messages (over `bincode`);
  - `csv_data` — CSV data files (over `csv`) to sparse-matrix entries and vector
    fields;
  - `render` — laying out reconstructed intensities as RGB pixels (over `image`);
  - `request_plan` — how a client draws its next request (over `rand`).
- `app/` — the programs (server, client, prototype): sockets, threads, files,
  and the floating-point solvers and conversions.
- `tests/` — tests of the library.
