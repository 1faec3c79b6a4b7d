# protocol — FSP, the File Storage Protocol

A binary request/response protocol over TCP for listing, uploading,
downloading and deleting files, with every encoding, decoding and decision
given a contract and proved with Verus.

## Wire format

All integers are big-endian.

- Request: `MAGIC(2) VERSION(1) OPCODE(1) FILENAME_LEN(2) PAYLOAD_LEN(8)`,
  then the file name (`FILENAME_LEN` UTF-8 bytes) and, for an upload, the
  file data (`PAYLOAD_LEN` bytes, the first chunk of which travels with the
  request).
- Response: `MAGIC(2) VERSION(1) STATUS(1) PAYLOAD_LEN(8)`, then the payload:
  a file list (`FILE_COUNT(4)`, then per file `NAME_LEN(2) NAME FILE_SIZE(8)`),
  file data, nothing, or a UTF-8 error message.
- File names: at most 255 bytes, no `/`, `\`, NUL or `..`.

## Layout

- `src/` — the verified library: `wire` (big-endian fields), `header`,
  `request`, `response`, `text` (UTF-8 names), `transfer` (chunked data),
  `server` and `client` (the decisions each side makes), `display`.
- `app/` — the server and the interactive client around it (`fsp server`,
  `fsp client`): sockets, files, the terminal.
- `tests/` — tests on concrete messages, including the documented examples.
